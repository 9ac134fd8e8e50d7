//! Parsing of the `#[mineral(...)]` attribute, which states how a type or a
//! field crosses the boundary.
use vstd::prelude::*;
use crate::text::{chars_of, push_chars, push_str, str_eq, string_of};
use crate::tokens::{Attr, AttrMeta, Delimiter, SpecTok, Tok, tok_view, toks_view};
use crate::signature::opt_str_view;

verus! {

// ---------------------------------------------------------------------------
// Rendering tokens as source text.

/// The opening and closing text of a delimiter.
pub open spec fn open_text(d: Delimiter) -> Seq<char> {
    match d {
        Delimiter::Parenthesis => seq!['('],
        Delimiter::Brace => seq!['{'],
        Delimiter::Bracket => seq!['['],
        Delimiter::Invisible => Seq::empty(),
    }
}

/// The closing text of a delimiter.
pub open spec fn close_text(d: Delimiter) -> Seq<char> {
    match d {
        Delimiter::Parenthesis => seq![')'],
        Delimiter::Brace => seq!['}'],
        Delimiter::Bracket => seq![']'],
        Delimiter::Invisible => Seq::empty(),
    }
}

/// The source text of tokens: each followed by a space, but a punctuation
/// joined to the next token.
pub open spec fn render(s: Seq<SpecTok>) -> Seq<char>
    decreases s, 1int,
{
    if s.len() == 0 {
        Seq::empty()
    } else {
        render(s.drop_last()) + render_tok(s.last())
    }
}

/// The source text of one token.
pub open spec fn render_tok(t: SpecTok) -> Seq<char>
    decreases t, 0int,
{
    match t {
        SpecTok::Ident(x) => x + seq![' '],
        SpecTok::Punct(c, joint) => if joint {
            seq![c]
        } else {
            seq![c, ' ']
        },
        SpecTok::Literal(x) => x + seq![' '],
        SpecTok::Group(d, inner) => open_text(d) + render(inner) + close_text(d) + seq![' '],
    }
}

fn render_tok_into(t: &Tok, out: &mut Vec<char>)
    ensures
        final(out)@ == old(out)@ + render_tok(t@),
    decreases t, 0int,
{
    match t {
        Tok::Ident(x) => {
            push_str(out, x.as_str());
            out.push(' ');
        },
        Tok::Punct(c, joint) => {
            out.push(*c);
            if !*joint {
                out.push(' ');
            }
        },
        Tok::Literal(x) => {
            push_str(out, x.as_str());
            out.push(' ');
        },
        Tok::Group(d, inner) => {
            match d {
                Delimiter::Parenthesis => out.push('('),
                Delimiter::Brace => out.push('{'),
                Delimiter::Bracket => out.push('['),
                Delimiter::Invisible => {},
            }
            proof {
                assert(decreases_to!(*t => (*t)->Group_1));
            }
            render_range_into(inner, 0, inner.len(), out);
            assert(toks_view(inner@).subrange(0, inner@.len() as int) =~= toks_view(inner@));
            match d {
                Delimiter::Parenthesis => out.push(')'),
                Delimiter::Brace => out.push('}'),
                Delimiter::Bracket => out.push(']'),
                Delimiter::Invisible => {},
            }
            out.push(' ');
        },
    }
    assert(final(out)@ =~= old(out)@ + render_tok(t@));
}

fn render_range_into(toks: &Vec<Tok>, from: usize, to: usize, out: &mut Vec<char>)
    requires
        from <= to <= toks@.len(),
    ensures
        final(out)@ == old(out)@ + render(toks_view(toks@).subrange(from as int, to as int)),
    decreases toks, 1int,
{
    let ghost sv = toks_view(toks@);
    let ghost start = out@;
    let mut k = from;
    assert(sv.subrange(from as int, from as int) =~= Seq::<SpecTok>::empty());
    while k < to
        invariant
            from <= k <= to <= toks@.len(),
            sv == toks_view(toks@),
            out@ == start + render(sv.subrange(from as int, k as int)),
        decreases to - k,
    {
        proof {
            assert(decreases_to!(*toks => toks@));
            assert(decreases_to!(toks@ => toks@[k as int]));
        }
        render_tok_into(&toks[k], out);
        assert(sv.subrange(from as int, k + 1).drop_last() =~= sv.subrange(from as int, k as int));
        assert(sv.subrange(from as int, k + 1).last() == toks@[k as int]@);
        k = k + 1;
        assert(out@ =~= start + render(sv.subrange(from as int, k as int)));
    }
}

/// The source text of the tokens `from..to`.
pub fn render_range(toks: &Vec<Tok>, from: usize, to: usize) -> (r: String)
    requires
        from <= to <= toks@.len(),
    ensures
        r@ == render(toks_view(toks@).subrange(from as int, to as int)),
{
    let mut out: Vec<char> = Vec::new();
    render_range_into(toks, from, to, &mut out);
    assert(out@ =~= render(toks_view(toks@).subrange(from as int, to as int)));
    string_of(&out)
}

// ---------------------------------------------------------------------------
// What Rust's parser, through `syn`, says of expression text.

/// Whether `error` is a possible outcome of `syn` reading the text as one
/// whole expression: `None` where it accepts it, else its message.
pub uninterp spec fn expr_outcome(text: Seq<char>, error: Option<Seq<char>>) -> bool;

/// Whether `error` is a possible outcome of `syn` reading the text as one
/// whole closure: `None` where it accepts it, else its message.
pub uninterp spec fn closure_outcome(text: Seq<char>, error: Option<Seq<char>>) -> bool;

/// Calls `syn::parse_str::<syn::Expr>` and gives the error's message. The
/// outcome is only said to be a possible one for the text: which lexer runs
/// (the compiler's inside a macro, following the calling crate's edition, or
/// `proc-macro2`'s outside) is not a function of the text.
#[verifier::external_body]
fn syn_expr_error(text: &str) -> (r: Option<String>)
    ensures
        expr_outcome(text@, opt_str_view(r)),
{
    syn::parse_str::<syn::Expr>(text).err().map(|e| e.to_string())
}

/// Calls `syn::parse_str::<syn::ExprClosure>` and gives the error's message.
/// The outcome is only said to be a possible one for the text.
#[verifier::external_body]
fn syn_closure_error(text: &str) -> (r: Option<String>)
    ensures
        closure_outcome(text@, opt_str_view(r)),
{
    syn::parse_str::<syn::ExprClosure>(text).err().map(|e| e.to_string())
}

/// What `syn` said of the parts of a `#[mineral(...)]` list that must be
/// Rust expressions: `expr[a][b]` is the message with which it refused the
/// list tokens `a..b` as one expression, `closure[g][k]` the message with
/// which it refused the tokens `2..k` inside the group at `g` as one
/// closure; `None` where it accepted them.
#[derive(Debug, PartialEq, Eq)]
pub struct MineralReadings {
    pub expr: Vec<Vec<Option<String>>>,
    pub closure: Vec<Vec<Option<String>>>,
}

/// The value of mineral readings.
pub struct SpecMineralReadings {
    pub expr: Seq<Seq<Option<Seq<char>>>>,
    pub closure: Seq<Seq<Option<Seq<char>>>>,
}

/// The values of a table of readings.
pub open spec fn table_view(t: Seq<Vec<Option<String>>>) -> Seq<Seq<Option<Seq<char>>>> {
    Seq::new(t.len(), |i: int| Seq::new(t[i]@.len(), |j: int| opt_str_view(t[i]@[j])))
}

impl View for MineralReadings {
    type V = SpecMineralReadings;

    open spec fn view(&self) -> SpecMineralReadings {
        SpecMineralReadings { expr: table_view(self.expr@), closure: table_view(self.closure@) }
    }
}

/// One entry of a table of readings; accepted where the table has none.
pub open spec fn table_at(t: Seq<Seq<Option<Seq<char>>>>, a: int, b: int) -> Option<Seq<char>> {
    if 0 <= a < t.len() && 0 <= b < t[a].len() {
        t[a][b]
    } else {
        None
    }
}

/// What `syn` said of the list tokens `a..b` as one expression.
pub open spec fn rd_expr(rd: SpecMineralReadings, a: int, b: int) -> Option<Seq<char>> {
    table_at(rd.expr, a, b)
}

/// What `syn` said of the tokens `2..k` of the group at `g` as one closure.
pub open spec fn rd_closure(rd: SpecMineralReadings, g: int, k: int) -> Option<Seq<char>> {
    table_at(rd.closure, g, k)
}

fn table_entry(t: &Vec<Vec<Option<String>>>, a: usize, b: usize) -> (r: Option<String>)
    ensures
        opt_str_view(r) == table_at(table_view(t@), a as int, b as int),
{
    if a < t.len() && b < t[a].len() {
        t[a][b].clone()
    } else {
        None
    }
}

/// Whether a row of expression readings for the spans starting at `a`
/// holds, for each end `b` of an expression (a `,` or the end), a possible
/// outcome of `syn` on the rendered tokens `a..b`.
pub open spec fn expr_row_fits(s: Seq<SpecTok>, a: int, row: Seq<Option<Seq<char>>>) -> bool {
    &&& row.len() == s.len() + 1
    &&& forall|b: int| a <= b <= s.len() && is_expr_end(s, b) ==> expr_outcome(render(s.subrange(a, b)), #[trigger] row[b])
}

/// Whether a row of closure readings for the token `t` holds, where `t` is a
/// parenthesized group of two or more tokens, for each end `k` past its
/// third token, a possible outcome of `syn` on the rendered tokens `2..k`.
pub open spec fn closure_row_fits(t: SpecTok, row: Seq<Option<Seq<char>>>) -> bool {
    match t {
        SpecTok::Group(Delimiter::Parenthesis, inner) => inner.len() >= 2 ==> {
            &&& row.len() == inner.len() + 1
            &&& forall|k: int| 2 < k <= inner.len() ==> closure_outcome(render(inner.subrange(2, k)), #[trigger] row[k])
        },
        _ => true,
    }
}

/// Whether the readings are ones that `syn` may give of the list's
/// expressions and closures.
pub open spec fn mineral_readings_fit(s: Seq<SpecTok>, rd: SpecMineralReadings) -> bool {
    &&& rd.expr.len() == s.len() + 1
    &&& forall|a: int| 0 <= a <= s.len() ==> expr_row_fits(s, a, #[trigger] rd.expr[a])
    &&& rd.closure.len() == s.len()
    &&& forall|g: int| 0 <= g < s.len() ==> closure_row_fits(s[g], #[trigger] rd.closure[g])
}

/// The row of expression readings for the spans starting at `a`.
fn expr_row(toks: &Vec<Tok>, a: usize) -> (row: Vec<Option<String>>)
    requires
        a <= toks@.len(),
    ensures
        expr_row_fits(toks_view(toks@), a as int, Seq::new(row@.len(), |j: int| opt_str_view(row@[j]))),
{
    let ghost sv = toks_view(toks@);
    let n = toks.len();
    let mut row: Vec<Option<String>> = Vec::new();
    let mut b: usize = 0;
    loop
        invariant_except_break
            n == toks@.len(),
            sv == toks_view(toks@),
            a <= n,
            b <= n,
            row@.len() == b,
            forall|c: int| a <= c < b && is_expr_end(sv, c) ==> expr_outcome(render(sv.subrange(a as int, c)), opt_str_view(#[trigger] row@[c])),
        ensures
            row@.len() == n + 1,
            forall|c: int| a <= c <= n && is_expr_end(sv, c) ==> expr_outcome(render(sv.subrange(a as int, c)), opt_str_view(#[trigger] row@[c])),
        decreases n - b,
    {
        let is_end = b == n || match &toks[b] {
            Tok::Punct(c, _) => *c == ',',
            _ => false,
        };
        assert(b < n ==> sv[b as int] == toks@[b as int]@);
        assert(is_end == is_expr_end(sv, b as int));
        if a <= b && is_end {
            let text = render_range(toks, a, b);
            row.push(syn_expr_error(text.as_str()));
        } else {
            row.push(None);
        }
        if b >= n {
            break;
        }
        b = b + 1;
    }
    row
}

/// The row of closure readings for the token at `g`.
fn closure_row(toks: &Vec<Tok>, g: usize) -> (row: Vec<Option<String>>)
    requires
        g < toks@.len(),
    ensures
        closure_row_fits(toks_view(toks@)[g as int], Seq::new(row@.len(), |j: int| opt_str_view(row@[j]))),
{
    let mut row: Vec<Option<String>> = Vec::new();
    assert(toks_view(toks@)[g as int] == toks@[g as int]@);
    if let Tok::Group(Delimiter::Parenthesis, inner) = &toks[g] {
        if inner.len() >= 2 {
            let ghost iv = toks_view(inner@);
            let m = inner.len();
            let mut k: usize = 0;
            loop
                invariant_except_break
                    m == inner@.len(),
                    iv == toks_view(inner@),
                    m >= 2,
                    k <= m,
                    row@.len() == k,
                    forall|c: int| 2 < c < k ==> closure_outcome(render(iv.subrange(2, c)), opt_str_view(#[trigger] row@[c])),
                ensures
                    row@.len() == m + 1,
                    forall|c: int| 2 < c <= m ==> closure_outcome(render(iv.subrange(2, c)), opt_str_view(#[trigger] row@[c])),
                decreases m - k,
            {
                if k > 2 {
                    let text = render_range(inner, 2, k);
                    row.push(syn_closure_error(text.as_str()));
                } else {
                    row.push(None);
                }
                if k >= m {
                    break;
                }
                k = k + 1;
            }
        }
    }
    row
}

/// Asks `syn` about every span of the list that the reading of the list may
/// consult: each span ending at a `,` or at the end, as an expression, and,
/// in each parenthesized group of two or more tokens, each span from its
/// third token on, as a closure. Each answer is a possible one for the
/// rendered text of its span.
pub fn read_mineral(toks: &Vec<Tok>) -> (r: MineralReadings)
    ensures
        mineral_readings_fit(toks_view(toks@), r@),
{
    let n = toks.len();
    let mut expr: Vec<Vec<Option<String>>> = Vec::new();
    let mut a: usize = 0;
    loop
        invariant_except_break
            n == toks@.len(),
            a <= n,
            expr@.len() == a,
            forall|x: int| 0 <= x < a ==> expr_row_fits(toks_view(toks@), x, #[trigger] table_view(expr@)[x]),
        ensures
            expr@.len() == n + 1,
            forall|x: int| 0 <= x <= n ==> expr_row_fits(toks_view(toks@), x, #[trigger] table_view(expr@)[x]),
        decreases n - a,
    {
        let row = expr_row(toks, a);
        let ghost before = expr@;
        expr.push(row);
        assert forall|x: int| 0 <= x <= a implies expr_row_fits(toks_view(toks@), x, #[trigger] table_view(expr@)[x]) by {
            if x < a {
                assert(table_view(expr@)[x] == table_view(before)[x]);
            }
        }
        if a >= n {
            break;
        }
        a = a + 1;
    }
    let mut closure: Vec<Vec<Option<String>>> = Vec::new();
    let mut g: usize = 0;
    while g < n
        invariant
            n == toks@.len(),
            g <= n,
            closure@.len() == g,
            expr@.len() == n + 1,
            forall|x: int| 0 <= x < g ==> closure_row_fits(toks_view(toks@)[x], #[trigger] table_view(closure@)[x]),
        decreases n - g,
    {
        let row = closure_row(toks, g);
        let ghost before = closure@;
        closure.push(row);
        assert forall|x: int| 0 <= x <= g implies closure_row_fits(toks_view(toks@)[x], #[trigger] table_view(closure@)[x]) by {
            if x < g {
                assert(table_view(closure@)[x] == table_view(before)[x]);
            }
        }
        g = g + 1;
    }
    MineralReadings { expr, closure }
}

/// Whether the text is accepted as an identifier that is not a keyword.
pub open spec fn is_plain_ident(x: Seq<char>) -> bool {
    !(x == "_"@ || x == "abstract"@ || x == "as"@ || x == "async"@ || x == "await"@ || x
        == "become"@ || x == "box"@ || x == "break"@ || x == "const"@ || x == "continue"@ || x
        == "crate"@ || x == "do"@ || x == "dyn"@ || x == "else"@ || x == "enum"@ || x == "extern"@
        || x == "false"@ || x == "final"@ || x == "fn"@ || x == "for"@ || x == "if"@ || x
        == "impl"@ || x == "in"@ || x == "let"@ || x == "loop"@ || x == "macro"@ || x == "match"@
        || x == "mod"@ || x == "move"@ || x == "mut"@ || x == "override"@ || x == "priv"@ || x
        == "pub"@ || x == "ref"@ || x == "return"@ || x == "Self"@ || x == "self"@ || x
        == "static"@ || x == "struct"@ || x == "super"@ || x == "trait"@ || x == "true"@ || x
        == "try"@ || x == "type"@ || x == "typeof"@ || x == "unsafe"@ || x == "unsized"@ || x
        == "use"@ || x == "virtual"@ || x == "where"@ || x == "while"@ || x == "yield"@)
}

fn plain_ident(x: &str) -> (r: bool)
    ensures
        r == is_plain_ident(x@),
{
    !(str_eq(x, "_") || str_eq(x, "abstract") || str_eq(x, "as") || str_eq(x, "async") || str_eq(
        x,
        "await",
    ) || str_eq(x, "become") || str_eq(x, "box") || str_eq(x, "break") || str_eq(x, "const")
        || str_eq(x, "continue") || str_eq(x, "crate") || str_eq(x, "do") || str_eq(x, "dyn")
        || str_eq(x, "else") || str_eq(x, "enum") || str_eq(x, "extern") || str_eq(x, "false")
        || str_eq(x, "final") || str_eq(x, "fn") || str_eq(x, "for") || str_eq(x, "if") || str_eq(
        x,
        "impl",
    ) || str_eq(x, "in") || str_eq(x, "let") || str_eq(x, "loop") || str_eq(x, "macro")
        || str_eq(x, "match") || str_eq(x, "mod") || str_eq(x, "move") || str_eq(x, "mut")
        || str_eq(x, "override") || str_eq(x, "priv") || str_eq(x, "pub") || str_eq(x, "ref")
        || str_eq(x, "return") || str_eq(x, "Self") || str_eq(x, "self") || str_eq(x, "static")
        || str_eq(x, "struct") || str_eq(x, "super") || str_eq(x, "trait") || str_eq(x, "true")
        || str_eq(x, "try") || str_eq(x, "type") || str_eq(x, "typeof") || str_eq(x, "unsafe")
        || str_eq(x, "unsized") || str_eq(x, "use") || str_eq(x, "virtual") || str_eq(x, "where")
        || str_eq(x, "while") || str_eq(x, "yield"))
}


// ---------------------------------------------------------------------------
// The items of a `#[mineral(...)]` list.

/// Where the `is_valid` closure stands: the `unsafe(...)` group at `group`,
/// from token `start` of the group to its end.
#[derive(Debug, Clone, Copy, PartialEq, Eq, Structural)]
pub struct ClosureTokens {
    pub group: usize,
    pub start: usize,
}

/// Where an expression stands: the list tokens `start..end`.
#[derive(Debug, Clone, Copy, PartialEq, Eq, Structural)]
pub struct ExprTokens {
    pub start: usize,
    pub end: usize,
}

/// What a `#[mineral(...)]` list asks for.
#[derive(Debug, Clone, Copy, PartialEq, Eq, Structural)]
pub enum FfiTypeToken {
    Transparent(Option<ExprTokens>, ClosureTokens),
    UnsafeNonOwning,
    Opaque,
    Local,
}

/// Why a `#[mineral(...)]` list is refused; each error holds the index of
/// the list token that it is about.
#[derive(Debug, PartialEq, Eq)]
pub enum MineralError {
    ExpectedIdent { token: usize },
    ExpectedUnsafeGroup { token: usize },
    ExpectedUnsafeKind { token: usize },
    NonOwningNotAlone { token: usize },
    ExpectedEq { token: usize },
    InvalidClosure { token: usize, message: String },
    TokensAfterClosure { token: usize },
    UnknownUnsafeKind { token: usize, name: String },
    InvalidExpression { token: usize, message: String },
    UnknownKind { token: usize, name: String },
    ExpectedComma { token: usize },
    TokensAfterKind,
    NicheWithoutIsValid,
    ExpectedKind,
}

/// The value of an error.
pub enum SpecMineralError {
    ExpectedIdent { token: usize },
    ExpectedUnsafeGroup { token: usize },
    ExpectedUnsafeKind { token: usize },
    NonOwningNotAlone { token: usize },
    ExpectedEq { token: usize },
    InvalidClosure { token: usize, message: Seq<char> },
    TokensAfterClosure { token: usize },
    UnknownUnsafeKind { token: usize, name: Seq<char> },
    InvalidExpression { token: usize, message: Seq<char> },
    UnknownKind { token: usize, name: Seq<char> },
    ExpectedComma { token: usize },
    TokensAfterKind,
    NicheWithoutIsValid,
    ExpectedKind,
}

impl View for MineralError {
    type V = SpecMineralError;

    open spec fn view(&self) -> SpecMineralError {
        match *self {
            MineralError::ExpectedIdent { token } => SpecMineralError::ExpectedIdent { token },
            MineralError::ExpectedUnsafeGroup { token } => SpecMineralError::ExpectedUnsafeGroup { token },
            MineralError::ExpectedUnsafeKind { token } => SpecMineralError::ExpectedUnsafeKind { token },
            MineralError::NonOwningNotAlone { token } => SpecMineralError::NonOwningNotAlone { token },
            MineralError::ExpectedEq { token } => SpecMineralError::ExpectedEq { token },
            MineralError::InvalidClosure { token, message } => SpecMineralError::InvalidClosure {
                token,
                message: message@,
            },
            MineralError::TokensAfterClosure { token } => SpecMineralError::TokensAfterClosure { token },
            MineralError::UnknownUnsafeKind { token, name } => SpecMineralError::UnknownUnsafeKind {
                token,
                name: name@,
            },
            MineralError::InvalidExpression { token, message } => SpecMineralError::InvalidExpression {
                token,
                message: message@,
            },
            MineralError::UnknownKind { token, name } => SpecMineralError::UnknownKind { token, name: name@ },
            MineralError::ExpectedComma { token } => SpecMineralError::ExpectedComma { token },
            MineralError::TokensAfterKind => SpecMineralError::TokensAfterKind,
            MineralError::NicheWithoutIsValid => SpecMineralError::NicheWithoutIsValid,
            MineralError::ExpectedKind => SpecMineralError::ExpectedKind,
        }
    }
}

/// What the items read so far ask for.
pub struct MineralState {
    pub token: Option<FfiTypeToken>,
    pub niche: Option<ExprTokens>,
    pub is_valid: Option<ClosureTokens>,
}

/// Whether the token is the punctuation `c`.
pub open spec fn punct_at(s: Seq<SpecTok>, i: int, c: char) -> bool {
    0 <= i < s.len() && (s[i] matches SpecTok::Punct(p, _) && p == c)
}

/// Whether `e` ends an expression that starts at `start`: a `,` or the end.
pub open spec fn is_expr_end(s: Seq<SpecTok>, e: int) -> bool {
    e == s.len() || punct_at(s, e, ',')
}

/// The first end from `e` on at which the tokens from `start` form one whole
/// expression.
pub open spec fn spec_expr_end(s: Seq<SpecTok>, rd: SpecMineralReadings, start: int, e: int) -> Option<int>
    decreases s.len() - e,
{
    if e < start || e > s.len() {
        None
    } else if is_expr_end(s, e) && rd_expr(rd, start, e) is None {
        Some(e)
    } else if e == s.len() {
        None
    } else {
        spec_expr_end(s, rd, start, e + 1)
    }
}

/// The first end from `e` on that can end an expression.
pub open spec fn spec_first_end(s: Seq<SpecTok>, e: int) -> int
    decreases s.len() - e,
{
    if e < 0 || e >= s.len() || punct_at(s, e, ',') {
        if e < 0 {
            s.len() as int
        } else if e > s.len() {
            s.len() as int
        } else {
            e
        }
    } else {
        spec_first_end(s, e + 1)
    }
}

/// Whether some proper beginning of `inner[start..]` is a whole closure.
pub open spec fn closure_prefix_parses(rd: SpecMineralReadings, g: int, inner: Seq<SpecTok>) -> bool {
    exists|k: int| 2 < k < inner.len() && #[trigger] rd_closure(rd, g, k) is None
}

/// Reads the `unsafe(...)` group at `g`.
pub open spec fn spec_unsafe_item(s: Seq<SpecTok>, rd: SpecMineralReadings, g: int, st: MineralState) -> Result<
    MineralState,
    SpecMineralError,
> {
    match s[g] {
        SpecTok::Group(Delimiter::Parenthesis, inner) => {
            if inner.len() == 0 || !(inner[0] matches SpecTok::Ident(y) && is_plain_ident(y)) {
                Err(SpecMineralError::ExpectedUnsafeKind { token: g as usize })
            } else {
                let y = inner[0]->Ident_0;
                if y == "non_owning"@ {
                    if inner.len() > 1 {
                        Err(SpecMineralError::NonOwningNotAlone { token: g as usize })
                    } else {
                        Ok(MineralState { token: Some(FfiTypeToken::UnsafeNonOwning), ..st })
                    }
                } else if y == "is_valid"@ {
                    if !punct_at(inner, 1, '=') {
                        Err(SpecMineralError::ExpectedEq { token: g as usize })
                    } else {
                        match rd_closure(rd, g, inner.len() as int) {
                            None => Ok(
                                MineralState {
                                    is_valid: Some(ClosureTokens { group: g as usize, start: 2 }),
                                    ..st
                                },
                            ),
                            Some(m) => if closure_prefix_parses(rd, g, inner) {
                                Err(SpecMineralError::TokensAfterClosure { token: g as usize })
                            } else {
                                Err(SpecMineralError::InvalidClosure { token: g as usize, message: m })
                            },
                        }
                    }
                } else {
                    Err(SpecMineralError::UnknownUnsafeKind { token: g as usize, name: y })
                }
            }
        },
        _ => Err(SpecMineralError::ExpectedUnsafeGroup { token: (g - 1) as usize }),
    }
}

/// Reads the item at `i`, giving the state after it and where it ends.
pub open spec fn spec_mineral_item(s: Seq<SpecTok>, rd: SpecMineralReadings, i: int, st: MineralState) -> Result<
    (MineralState, int),
    SpecMineralError,
> {
    match s[i] {
        SpecTok::Ident(x) => if x == "opaque"@ {
            Ok((MineralState { token: Some(FfiTypeToken::Opaque), ..st }, i + 1))
        } else if x == "local"@ {
            Ok((MineralState { token: Some(FfiTypeToken::Local), ..st }, i + 1))
        } else if x == "unsafe"@ {
            if i + 1 >= s.len() || !(s[i + 1] matches SpecTok::Group(Delimiter::Parenthesis, _)) {
                Err(SpecMineralError::ExpectedUnsafeGroup { token: i as usize })
            } else {
                match spec_unsafe_item(s, rd, i + 1, st) {
                    Ok(st1) => Ok((st1, i + 2)),
                    Err(e) => Err(e),
                }
            }
        } else if x == "NICHE_VALUE"@ {
            if !punct_at(s, i + 1, '=') {
                Err(SpecMineralError::ExpectedEq { token: (i + 1) as usize })
            } else {
                match spec_expr_end(s, rd, i + 2, i + 2) {
                    Some(e) => Ok(
                        (
                            MineralState {
                                niche: Some(ExprTokens { start: (i + 2) as usize, end: e as usize }),
                                ..st
                            },
                            e,
                        ),
                    ),
                    None => {
                        let e0 = spec_first_end(s, i + 2);
                        Err(
                            SpecMineralError::InvalidExpression {
                                token: (i + 2) as usize,
                                message: rd_expr(rd, i + 2, e0).unwrap(),
                            },
                        )
                    },
                }
            }
        } else {
            Err(SpecMineralError::UnknownKind { token: i as usize, name: x })
        },
        _ => Err(SpecMineralError::ExpectedIdent { token: i as usize }),
    }
}

/// Reads the items from `i` on.
pub open spec fn spec_mineral_items(s: Seq<SpecTok>, rd: SpecMineralReadings, i: int, st: MineralState) -> Result<
    MineralState,
    SpecMineralError,
>
    decreases s.len() - i,
{
    if i < 0 || i >= s.len() {
        Ok(st)
    } else {
        match spec_mineral_item(s, rd, i, st) {
            Err(e) => Err(e),
            Ok((st1, j)) => if j <= i {
                Ok(st1)
            } else if j >= s.len() {
                Ok(st1)
            } else if punct_at(s, j, ',') {
                spec_mineral_items(s, rd, j + 1, st1)
            } else {
                Err(SpecMineralError::ExpectedComma { token: j as usize })
            },
        }
    }
}

/// What a `#[mineral(...)]` list asks for: `opaque`, `local`,
/// `unsafe(non_owning)`, or `unsafe(is_valid = <closure>)` with an optional
/// `NICHE_VALUE = <expression>`, items separated by commas. A later kind
/// replaces an earlier one, and a kind does not go with the other two.
pub open spec fn spec_parse_mineral(s: Seq<SpecTok>, rd: SpecMineralReadings) -> Result<FfiTypeToken, SpecMineralError> {
    match spec_mineral_items(s, rd, 0, MineralState { token: None, niche: None, is_valid: None }) {
        Err(e) => Err(e),
        Ok(st) => match st.token {
            Some(t) => if st.is_valid is Some || st.niche is Some {
                Err(SpecMineralError::TokensAfterKind)
            } else {
                Ok(t)
            },
            None => match st.is_valid {
                Some(c) => Ok(FfiTypeToken::Transparent(st.niche, c)),
                None => if st.niche is Some {
                    Err(SpecMineralError::NicheWithoutIsValid)
                } else {
                    Err(SpecMineralError::ExpectedKind)
                },
            },
        },
    }
}


fn punct_is(toks: &Vec<Tok>, i: usize, c: char) -> (r: bool)
    ensures
        r == punct_at(toks_view(toks@), i as int, c),
{
    if i >= toks.len() {
        return false;
    }
    assert(toks_view(toks@)[i as int] == toks@[i as int]@);
    match &toks[i] {
        Tok::Punct(p, _) => *p == c,
        _ => false,
    }
}

proof fn lemma_first_end_bounds(s: Seq<SpecTok>, e: int)
    requires
        0 <= e <= s.len(),
    ensures
        e <= spec_first_end(s, e) <= s.len(),
        is_expr_end(s, spec_first_end(s, e)),
        forall|k: int| e <= k < spec_first_end(s, e) ==> !is_expr_end(s, k),
    decreases s.len() - e,
{
    if e < s.len() && !punct_at(s, e, ',') {
        lemma_first_end_bounds(s, e + 1);
    }
}

proof fn lemma_first_end_skip(s: Seq<SpecTok>, e: int)
    requires
        0 <= e < s.len(),
        !is_expr_end(s, e),
    ensures
        spec_first_end(s, e) == spec_first_end(s, e + 1),
{
}

/// The first end of an expression starting at `start`, or the message of
/// the error with which the tokens up to the first `,` are refused.
fn expr_end(toks: &Vec<Tok>, rd: &MineralReadings, start: usize) -> (r: Result<usize, String>)
    requires
        start <= toks@.len(),
    ensures
        match r {
            Ok(e) => spec_expr_end(toks_view(toks@), rd@, start as int, start as int) == Some(e as int),
            Err(m) => {
                &&& spec_expr_end(toks_view(toks@), rd@, start as int, start as int) is None
                &&& rd_expr(rd@, start as int, spec_first_end(toks_view(toks@), start as int)) == Some(m@)
            },
        },
{
    let ghost sv = toks_view(toks@);
    proof {
        lemma_first_end_bounds(sv, start as int);
    }
    let ghost e0 = spec_first_end(sv, start as int);
    let mut e = start;
    let mut first_err: Option<String> = None;
    while e < toks.len()
        invariant
            start <= e <= toks@.len(),
            sv == toks_view(toks@),
            sv.len() == toks@.len(),
            start <= e0 <= sv.len(),
            is_expr_end(sv, e0),
            forall|k: int| start <= k < e0 ==> !#[trigger] is_expr_end(sv, k),
            spec_expr_end(sv, rd@, start as int, start as int) == spec_expr_end(sv, rd@, start as int, e as int),
            first_err is None ==> e <= e0,
            first_err matches Some(m) ==> e0 < e && rd_expr(rd@, start as int, e0) == Some(m@),
        decreases toks@.len() - e,
    {
        if punct_is(toks, e, ',') {
            assert(is_expr_end(sv, e as int));
            match table_entry(&rd.expr, start, e) {
                None => {
                    return Ok(e);
                },
                Some(m) => {
                    if first_err.is_none() {
                        assert(e == e0);
                        first_err = Some(m);
                    }
                },
            }
        } else {
            assert(!is_expr_end(sv, e as int));
        }
        e = e + 1;
    }
    assert(is_expr_end(sv, e as int));
    match table_entry(&rd.expr, start, e) {
        None => Ok(e),
        Some(m) => {
            assert(spec_expr_end(sv, rd@, start as int, e as int) is None);
            match first_err {
                Some(f) => Err(f),
                None => {
                    assert(e == e0);
                    Err(m)
                },
            }
        },
    }
}

/// Reads the `unsafe(...)` group at `g`.
#[verifier::loop_isolation(false)]
fn unsafe_item(toks: &Vec<Tok>, rd: &MineralReadings, g: usize, st: (Option<FfiTypeToken>, Option<ExprTokens>, Option<ClosureTokens>)) -> (r: Result<
    (Option<FfiTypeToken>, Option<ExprTokens>, Option<ClosureTokens>),
    MineralError,
>)
    requires
        g < toks@.len(),
        toks_view(toks@)[g as int] matches SpecTok::Group(Delimiter::Parenthesis, _),
    ensures
        match r {
            Ok(st1) => spec_unsafe_item(
                toks_view(toks@),
                rd@,
                g as int,
                MineralState { token: st.0, niche: st.1, is_valid: st.2 },
            ) == Ok::<MineralState, SpecMineralError>(
                MineralState { token: st1.0, niche: st1.1, is_valid: st1.2 },
            ),
            Err(e) => spec_unsafe_item(
                toks_view(toks@),
                rd@,
                g as int,
                MineralState { token: st.0, niche: st.1, is_valid: st.2 },
            ) == Err::<MineralState, SpecMineralError>(e@),
        },
{
    let ghost sv = toks_view(toks@);
    assert(sv[g as int] == toks@[g as int]@);
    let inner = match &toks[g] {
        Tok::Group(_, inner) => inner,
        _ => {
            assert(false);
            return Err(MineralError::ExpectedKind);
        },
    };
    let ghost iv = toks_view(inner@);
    assert(sv[g as int] == SpecTok::Group(Delimiter::Parenthesis, iv));
    if inner.len() == 0 {
        return Err(MineralError::ExpectedUnsafeKind { token: g });
    }
    assert(iv[0] == inner@[0]@);
    let y = match &inner[0] {
        Tok::Ident(y) => y,
        _ => {
            return Err(MineralError::ExpectedUnsafeKind { token: g });
        },
    };
    if !plain_ident(y.as_str()) {
        return Err(MineralError::ExpectedUnsafeKind { token: g });
    }
    if str_eq(y.as_str(), "non_owning") {
        if inner.len() > 1 {
            return Err(MineralError::NonOwningNotAlone { token: g });
        }
        return Ok((Some(FfiTypeToken::UnsafeNonOwning), st.1, st.2));
    }
    if str_eq(y.as_str(), "is_valid") {
        if !punct_is(inner, 1, '=') {
            return Err(MineralError::ExpectedEq { token: g });
        }
        match table_entry(&rd.closure, g, inner.len()) {
            None => {
                return Ok((st.0, st.1, Some(ClosureTokens { group: g, start: 2 })));
            },
            Some(m) => {
                let mut k: usize = 3;
                while k < inner.len()
                    invariant
                        3 <= k,
                        inner@.len() >= 2,
                        iv == toks_view(inner@),
                        forall|j: int|
                            2 < j < k && j < inner@.len() ==> #[trigger] rd_closure(rd@, g as int, j) is Some,
                    decreases inner@.len() - k,
                {
                    if table_entry(&rd.closure, g, k).is_none() {
                        assert(rd_closure(rd@, g as int, k as int) is None);
                        assert(closure_prefix_parses(rd@, g as int, iv));
                        assert(spec_unsafe_item(
                            sv,
                            rd@,
                            g as int,
                            MineralState { token: st.0, niche: st.1, is_valid: st.2 },
                        ) == Err::<MineralState, SpecMineralError>(
                            SpecMineralError::TokensAfterClosure { token: g },
                        ));
                        return Err(MineralError::TokensAfterClosure { token: g });
                    }
                    k = k + 1;
                }
                assert(!closure_prefix_parses(rd@, g as int, iv));
                return Err(MineralError::InvalidClosure { token: g, message: m });
            },
        }
    }
    Err(MineralError::UnknownUnsafeKind { token: g, name: y.clone() })
}

/// Reads the item at `i`.
fn mineral_item(toks: &Vec<Tok>, rd: &MineralReadings, i: usize, st: (Option<FfiTypeToken>, Option<ExprTokens>, Option<ClosureTokens>)) -> (r: Result<
    ((Option<FfiTypeToken>, Option<ExprTokens>, Option<ClosureTokens>), usize),
    MineralError,
>)
    requires
        i < toks@.len(),
    ensures
        match r {
            Ok((st1, j)) => spec_mineral_item(
                toks_view(toks@),
                rd@,
                i as int,
                MineralState { token: st.0, niche: st.1, is_valid: st.2 },
            ) == Ok::<(MineralState, int), SpecMineralError>(
                (MineralState { token: st1.0, niche: st1.1, is_valid: st1.2 }, j as int),
            ),
            Err(e) => spec_mineral_item(
                toks_view(toks@),
                rd@,
                i as int,
                MineralState { token: st.0, niche: st.1, is_valid: st.2 },
            ) == Err::<(MineralState, int), SpecMineralError>(e@),
        },
{
    let ghost sv = toks_view(toks@);
    let n = toks.len();
    assert(sv[i as int] == toks@[i as int]@);
    let x = match &toks[i] {
        Tok::Ident(x) => x,
        _ => {
            return Err(MineralError::ExpectedIdent { token: i });
        },
    };
    if str_eq(x.as_str(), "opaque") {
        return Ok(((Some(FfiTypeToken::Opaque), st.1, st.2), i + 1));
    }
    if str_eq(x.as_str(), "local") {
        return Ok(((Some(FfiTypeToken::Local), st.1, st.2), i + 1));
    }
    if str_eq(x.as_str(), "unsafe") {
        if i + 1 >= toks.len() {
            return Err(MineralError::ExpectedUnsafeGroup { token: i });
        }
        assert(sv[i + 1] == toks@[i + 1]@);
        let is_paren = match &toks[i + 1] {
            Tok::Group(d, _) => match d {
                Delimiter::Parenthesis => true,
                _ => false,
            },
            _ => false,
        };
        if !is_paren {
            return Err(MineralError::ExpectedUnsafeGroup { token: i });
        }
        return match unsafe_item(toks, rd, i + 1, st) {
            Ok(st1) => Ok((st1, i + 2)),
            Err(e) => Err(e),
        };
    }
    if str_eq(x.as_str(), "NICHE_VALUE") {
        if !punct_is(toks, i + 1, '=') {
            return Err(MineralError::ExpectedEq { token: i + 1 });
        }
        return match expr_end(toks, rd, i + 2) {
            Ok(e) => Ok(((st.0, Some(ExprTokens { start: i + 2, end: e }), st.2), e)),
            Err(m) => Err(MineralError::InvalidExpression { token: i + 2, message: m }),
        };
    }
    Err(MineralError::UnknownKind { token: i, name: x.clone() })
}

/// The value of the outcome of reading a list.
pub open spec fn mineral_result_view(r: Result<FfiTypeToken, MineralError>) -> Result<FfiTypeToken, SpecMineralError> {
    match r {
        Ok(t) => Ok(t),
        Err(e) => Err(e@),
    }
}

/// Whether `res` is what reading the list `s` gives for some answers of
/// `syn` about its expressions and closures.
pub open spec fn mineral_outcome(s: Seq<SpecTok>, res: Result<FfiTypeToken, SpecMineralError>) -> bool {
    exists|rd: SpecMineralReadings| mineral_readings_fit(s, rd) && res == #[trigger] spec_parse_mineral(s, rd)
}

/// Reads a `#[mineral(...)]` list through `syn`: asks it about the list's
/// expressions and closures, then reads the list with its answers. Whatever
/// `syn` answered, the outcome is what the reading gives for some answers.
pub fn parse_ffi_type_token(toks: &Vec<Tok>) -> (r: Result<FfiTypeToken, MineralError>)
    ensures
        mineral_outcome(toks_view(toks@), mineral_result_view(r)),
{
    let rd = read_mineral(toks);
    let r = parse_ffi_type_token_with(toks, &rd);
    assert(mineral_result_view(r) == spec_parse_mineral(toks_view(toks@), rd@));
    r
}

/// Reads a `#[mineral(...)]` list, given what `syn` said of its expressions
/// and closures: what it asks for, or the first error in it.
#[verifier::loop_isolation(false)]
pub fn parse_ffi_type_token_with(toks: &Vec<Tok>, rd: &MineralReadings) -> (r: Result<FfiTypeToken, MineralError>)
    ensures
        mineral_result_view(r) == spec_parse_mineral(toks_view(toks@), rd@),
{
    let ghost sv = toks_view(toks@);
    let ghost init = MineralState { token: None, niche: None, is_valid: None };
    let mut st: (Option<FfiTypeToken>, Option<ExprTokens>, Option<ClosureTokens>) = (None, None, None);
    let mut i: usize = 0;
    while i < toks.len()
        invariant
            i <= toks@.len(),
            sv == toks_view(toks@),
            sv.len() == toks@.len(),
            spec_mineral_items(sv, rd@, 0, init) == spec_mineral_items(
                sv,
                rd@,
                i as int,
                MineralState { token: st.0, niche: st.1, is_valid: st.2 },
            ),
        decreases toks@.len() - i,
    {
        match mineral_item(toks, rd, i, st) {
            Err(e) => {
                return Err(e);
            },
            Ok((st1, j)) => {
                st = st1;
                if j <= i || j >= toks.len() {
                    i = toks.len();
                } else if punct_is(toks, j, ',') {
                    i = j + 1;
                } else {
                    return Err(MineralError::ExpectedComma { token: j });
                }
            },
        }
    }
    match st.0 {
        Some(t) => if st.2.is_some() || st.1.is_some() {
            Err(MineralError::TokensAfterKind)
        } else {
            Ok(t)
        },
        None => match st.2 {
            Some(c) => Ok(FfiTypeToken::Transparent(st.1, c)),
            None => if st.1.is_some() {
                Err(MineralError::NicheWithoutIsValid)
            } else {
                Err(MineralError::ExpectedKind)
            },
        },
    }
}


// ---------------------------------------------------------------------------
// The attribute on a type and on a field.

/// What `#[mineral(...)]` on a type asks for.
#[derive(Debug, Clone, Copy, PartialEq, Eq, Structural)]
pub enum FfiTypeKindAttribute {
    Transparent(Option<ExprTokens>, ClosureTokens),
    Opaque,
    Local,
}

/// What `#[mineral(...)]` on a field asks for.
#[derive(Debug, Clone, Copy, PartialEq, Eq, Structural)]
pub enum FfiTypeKindFieldAttribute {
    UnsafeNonOwning,
}

/// The kind on a type that a token names, if it may stand on a type.
pub open spec fn spec_type_kind(t: FfiTypeToken) -> Option<FfiTypeKindAttribute> {
    match t {
        FfiTypeToken::Transparent(n, c) => Some(FfiTypeKindAttribute::Transparent(n, c)),
        FfiTypeToken::Opaque => Some(FfiTypeKindAttribute::Opaque),
        FfiTypeToken::Local => Some(FfiTypeKindAttribute::Local),
        FfiTypeToken::UnsafeNonOwning => None,
    }
}

/// The kind on a field that a token names, if it may stand on a field.
pub open spec fn spec_field_kind(t: FfiTypeToken) -> Option<FfiTypeKindFieldAttribute> {
    match t {
        FfiTypeToken::UnsafeNonOwning => Some(FfiTypeKindFieldAttribute::UnsafeNonOwning),
        _ => None,
    }
}

impl FfiTypeKindAttribute {
    /// Reads a `#[mineral(...)]` list on a type.
    pub fn parse(toks: &Vec<Tok>) -> (r: Result<FfiTypeKindAttribute, KindError>)
        ensures
            exists|res| mineral_outcome(toks_view(toks@), res) && #[trigger] type_kind_fits(res, r),
    {
        let parsed = parse_ffi_type_token(toks);
        let ghost res = mineral_result_view(parsed);
        let r = match parsed {
            Ok(FfiTypeToken::Transparent(n, c)) => Ok(FfiTypeKindAttribute::Transparent(n, c)),
            Ok(FfiTypeToken::Opaque) => Ok(FfiTypeKindAttribute::Opaque),
            Ok(FfiTypeToken::Local) => Ok(FfiTypeKindAttribute::Local),
            Ok(t) => Err(KindError::Misplaced(t)),
            Err(e) => Err(KindError::Invalid(e)),
        };
        assert(type_kind_fits(res, r));
        r
    }
}

/// Whether reading a list on a type gives `r` where the list reads as `res`.
pub open spec fn type_kind_fits(res: Result<FfiTypeToken, SpecMineralError>, r: Result<FfiTypeKindAttribute, KindError>) -> bool {
    match res {
        Ok(t) => match spec_type_kind(t) {
            Some(k) => r == Ok::<FfiTypeKindAttribute, KindError>(k),
            None => r matches Err(KindError::Misplaced(t2)) && t2 == t,
        },
        Err(e) => r matches Err(KindError::Invalid(e2)) && e2@ == e,
    }
}

/// Whether reading a list on a field gives `r` where the list reads as
/// `res`.
pub open spec fn field_kind_fits(res: Result<FfiTypeToken, SpecMineralError>, r: Result<FfiTypeKindFieldAttribute, KindError>) -> bool {
    match res {
        Ok(t) => match spec_field_kind(t) {
            Some(k) => r == Ok::<FfiTypeKindFieldAttribute, KindError>(k),
            None => r matches Err(KindError::Misplaced(t2)) && t2 == t,
        },
        Err(e) => r matches Err(KindError::Invalid(e2)) && e2@ == e,
    }
}

impl FfiTypeKindFieldAttribute {
    /// Reads a `#[mineral(...)]` list on a field.
    pub fn parse(toks: &Vec<Tok>) -> (r: Result<FfiTypeKindFieldAttribute, KindError>)
        ensures
            exists|res| mineral_outcome(toks_view(toks@), res) && #[trigger] field_kind_fits(res, r),
    {
        let parsed = parse_ffi_type_token(toks);
        let ghost res = mineral_result_view(parsed);
        let r = match parsed {
            Ok(FfiTypeToken::UnsafeNonOwning) => Ok(FfiTypeKindFieldAttribute::UnsafeNonOwning),
            Ok(t) => Err(KindError::Misplaced(t)),
            Err(e) => Err(KindError::Invalid(e)),
        };
        assert(field_kind_fits(res, r));
        r
    }
}

/// Why an attribute list names no kind for its place: it is malformed, or
/// it names a kind that does not belong there.
#[derive(Debug, PartialEq, Eq)]
pub enum KindError {
    Invalid(MineralError),
    Misplaced(FfiTypeToken),
}

/// The positions of the attributes `i..` whose path is `name`.
pub open spec fn spec_named_attr_indices(attrs: Seq<Attr>, name: Seq<char>, i: int) -> Seq<int>
    decreases attrs.len() - i,
{
    if i < 0 || i >= attrs.len() {
        Seq::empty()
    } else if crate::tokens::attr_is_ident(attrs[i], name) {
        seq![i] + spec_named_attr_indices(attrs, name, i + 1)
    } else {
        spec_named_attr_indices(attrs, name, i + 1)
    }
}

/// The first attribute named `name`, and the positions of the others with
/// that name, each of which is one too many.
pub fn find_single_attr_opt(attr_name: &str, attrs: &Vec<Attr>) -> (r: (Option<usize>, Vec<usize>))
    ensures
        ({
            let idx = spec_named_attr_indices(attrs@, attr_name@, 0);
            &&& r.0 == (if idx.len() == 0 {
                None::<usize>
            } else {
                Some(idx[0] as usize)
            })
            &&& r.1@.map_values(|x: usize| x as int) == (if idx.len() == 0 {
                Seq::<int>::empty()
            } else {
                idx.drop_first()
            })
        }),
{
    let mut first: Option<usize> = None;
    let mut rest: Vec<usize> = Vec::new();
    let mut i: usize = 0;
    let ghost all = spec_named_attr_indices(attrs@, attr_name@, 0);
    while i < attrs.len()
        invariant
            i <= attrs@.len(),
            all == spec_named_attr_indices(attrs@, attr_name@, 0),
            ({
                let seen = match first {
                    None => Seq::<int>::empty(),
                    Some(f) => seq![f as int] + rest@.map_values(|x: usize| x as int),
                };
                seen + spec_named_attr_indices(attrs@, attr_name@, i as int) == all
            }),
            first is None ==> rest@.len() == 0,
        decreases attrs@.len() - i,
    {
        if crate::tokens::attr_path_is(&attrs[i], attr_name) {
            let ghost before = rest@;
            match first {
                None => {
                    first = Some(i);
                },
                Some(_) => {
                    rest.push(i);
                    assert(rest@.map_values(|x: usize| x as int) =~= before.map_values(
                        |x: usize| x as int,
                    ).push(i as int));
                },
            }
        }
        i = i + 1;
        proof {
            let seen = match first {
                None => Seq::<int>::empty(),
                Some(f) => seq![f as int] + rest@.map_values(|x: usize| x as int),
            };
            assert(seen + spec_named_attr_indices(attrs@, attr_name@, i as int) =~= all);
        }
    }
    proof {
        match first {
            None => {
                assert(all =~= Seq::<int>::empty());
            },
            Some(f) => {
                assert(all =~= seq![f as int] + rest@.map_values(|x: usize| x as int));
                assert(all.drop_first() =~= rest@.map_values(|x: usize| x as int));
            },
        }
    }
    (first, rest)
}


/// Why the attributes of a type or field hold no usable `#[mineral(...)]`.
#[derive(Debug, PartialEq, Eq)]
pub enum AttrError {
    /// The attribute appears more than once; these are the extra ones.
    Duplicate { attrs: Vec<usize> },
    /// The attribute is not a list.
    NotList { attr: usize },
    /// The attribute's list is malformed or names a kind that does not
    /// belong there.
    Kind { attr: usize, error: KindError },
}

/// The value of an attribute error.
pub enum SpecAttrError {
    Duplicate { attrs: Seq<int> },
    NotList { attr: usize },
    Invalid { attr: usize, error: SpecMineralError },
    Misplaced { attr: usize, token: FfiTypeToken },
}

impl View for AttrError {
    type V = SpecAttrError;

    open spec fn view(&self) -> SpecAttrError {
        match *self {
            AttrError::Duplicate { attrs } => SpecAttrError::Duplicate {
                attrs: attrs@.map_values(|x: usize| x as int),
            },
            AttrError::NotList { attr } => SpecAttrError::NotList { attr },
            AttrError::Kind { attr, error } => match error {
                KindError::Invalid(e) => SpecAttrError::Invalid { attr, error: e@ },
                KindError::Misplaced(t) => SpecAttrError::Misplaced { attr, token: t },
            },
        }
    }
}

/// The values of a sequence of attribute errors.
pub open spec fn attr_errors_view(s: Seq<AttrError>) -> Seq<SpecAttrError> {
    Seq::new(s.len(), |i: int| s[i]@)
}

/// The errors about the attribute named `name` that come before its list is
/// read: one for the extra attributes, if any.
pub open spec fn spec_duplicate_errors(idx: Seq<int>) -> Seq<SpecAttrError> {
    if idx.len() > 1 {
        seq![SpecAttrError::Duplicate { attrs: idx.drop_first() }]
    } else {
        Seq::empty()
    }
}

/// The tokens of the list of the single `#[name(...)]` attribute of
/// `attrs`, where it is a list.
pub open spec fn spec_list_tokens(attrs: Seq<Attr>, name: Seq<char>) -> Option<Seq<SpecTok>> {
    let idx = spec_named_attr_indices(attrs, name, 0);
    if idx.len() == 0 {
        None
    } else {
        match attrs[idx[0]].meta {
            AttrMeta::List(toks) => Some(toks_view(toks@)),
            _ => None,
        }
    }
}

/// Whether `p` is a possible outcome of reading the list of the single
/// `#[name(...)]` attribute, where there is one.
pub open spec fn list_outcome_fits(attrs: Seq<Attr>, name: Seq<char>, p: Result<FfiTypeToken, SpecMineralError>) -> bool {
    match spec_list_tokens(attrs, name) {
        Some(t) => mineral_outcome(t, p),
        None => true,
    }
}

/// Whether `r` is what locating the single `#[name(...)]` attribute gives,
/// with `p` the outcome of reading its list.
pub open spec fn single_list_fits(
    attrs: Seq<Attr>,
    name: Seq<char>,
    p: Result<FfiTypeToken, SpecMineralError>,
    r: (Vec<AttrError>, Option<(usize, Result<FfiTypeToken, MineralError>)>),
) -> bool {
    let (errs, found) = spec_single_list_attr(attrs, name, p);
    &&& attr_errors_view(r.0@) == errs
    &&& match (r.1, found) {
        (None, None) => true,
        (Some((a, Ok(t))), Some((b, Ok(u)))) => a == b && t == u,
        (Some((a, Err(e))), Some((b, Err(f)))) => a == b && e@ == f,
        _ => false,
    }
}

/// Reads the single `#[name(...)]` attribute of `attrs`, if there is one: the
/// errors found while locating it, and the outcome `parsed` of reading its list.
pub open spec fn spec_single_list_attr(attrs: Seq<Attr>, name: Seq<char>, parsed: Result<FfiTypeToken, SpecMineralError>) -> (
    Seq<SpecAttrError>,
    Option<(int, Result<FfiTypeToken, SpecMineralError>)>,
) {
    let idx = spec_named_attr_indices(attrs, name, 0);
    if idx.len() == 0 {
        (Seq::empty(), None)
    } else {
        let a = idx[0];
        match attrs[a].meta {
            AttrMeta::List(_) => (spec_duplicate_errors(idx), Some((a, parsed))),
            _ => (spec_duplicate_errors(idx).push(SpecAttrError::NotList { attr: a as usize }), None),
        }
    }
}

/// Reads the single `#[name(...)]` attribute of `attrs`: the errors found
/// while locating it (a second such attribute, or one that is not a list),
/// and, where it is a list, its position and what reading the list gives.
pub fn parse_single_list_attr_opt(attr_name: &str, attrs: &Vec<Attr>) -> (r: (
    Vec<AttrError>,
    Option<(usize, Result<FfiTypeToken, MineralError>)>,
))
    ensures
        exists|p| list_outcome_fits(attrs@, attr_name@, p) && #[trigger] single_list_fits(attrs@, attr_name@, p, r),
{
    let (first, rest) = find_single_attr_opt(attr_name, attrs);
    let ghost idx = spec_named_attr_indices(attrs@, attr_name@, 0);
    let mut errors: Vec<AttrError> = Vec::new();
    let a = match first {
        None => {
            assert(attr_errors_view(errors@) =~= Seq::<SpecAttrError>::empty());
            let r = (errors, None);
            let ghost p = Err::<FfiTypeToken, SpecMineralError>(SpecMineralError::ExpectedKind);
            assert(list_outcome_fits(attrs@, attr_name@, p));
            assert(single_list_fits(attrs@, attr_name@, p, r));
            return r;
        },
        Some(a) => a,
    };
    let n = attrs.len();
    proof {
        assert(0 <= idx[0] < attrs@.len()) by {
            lemma_named_attr_indices_in_range(attrs@, attr_name@, 0);
        }
        assert(a as int == idx[0]);
    }
    let ghost rv = rest@.map_values(|x: usize| x as int);
    assert(rv == idx.drop_first());
    assert(rv.len() == rest@.len());
    if rest.len() > 0 {
        let e = AttrError::Duplicate { attrs: rest };
        errors.push(e);
        assert(e@ == SpecAttrError::Duplicate { attrs: idx.drop_first() });
        assert(attr_errors_view(errors@) =~= spec_duplicate_errors(idx));
    } else {
        assert(attr_errors_view(errors@) =~= spec_duplicate_errors(idx));
    }
    match &attrs[a].meta {
        AttrMeta::List(toks) => {
            let parsed = parse_ffi_type_token(toks);
            let ghost p = mineral_result_view(parsed);
            let r = (errors, Some((a, parsed)));
            assert(list_outcome_fits(attrs@, attr_name@, p));
            assert(single_list_fits(attrs@, attr_name@, p, r));
            r
        },
        _ => {
            let ghost before = attr_errors_view(errors@);
            let e = AttrError::NotList { attr: a };
            errors.push(e);
            assert(attr_errors_view(errors@) =~= before.push(e@));
            let r = (errors, None);
            let ghost p = Err::<FfiTypeToken, SpecMineralError>(SpecMineralError::ExpectedKind);
            assert(list_outcome_fits(attrs@, attr_name@, p));
            assert(single_list_fits(attrs@, attr_name@, p, r));
            r
        },
    }
}

/// The positions from which a single attribute is located are exactly those
/// of the attributes named `name`, in order: each one is such an
/// attribute, they increase, and no attribute with that name is left out.
/// So `find_single_attr_opt` gives the first of them and flags every later
/// one, and `parse_single_list_attr_opt` reads the first where it is a list.
pub proof fn lemma_named_attr_indices_are_the_named_attrs(attrs: Seq<Attr>, name: Seq<char>)
    ensures
        ({
            let idx = spec_named_attr_indices(attrs, name, 0);
            &&& forall|k: int|
                0 <= k < idx.len() ==> 0 <= #[trigger] idx[k] < attrs.len() && crate::tokens::attr_is_ident(
                    attrs[idx[k]],
                    name,
                )
            &&& forall|k1: int, k2: int| 0 <= k1 < k2 < idx.len() ==> #[trigger] idx[k1] < #[trigger] idx[k2]
            &&& forall|p: int|
                0 <= p < attrs.len() && crate::tokens::attr_is_ident(#[trigger] attrs[p], name) ==> idx.contains(p)
        }),
{
    lemma_named_attr_indices_from(attrs, name, 0);
}

proof fn lemma_named_attr_indices_from(attrs: Seq<Attr>, name: Seq<char>, i: int)
    requires
        0 <= i,
    ensures
        ({
            let idx = spec_named_attr_indices(attrs, name, i);
            &&& forall|k: int|
                0 <= k < idx.len() ==> i <= #[trigger] idx[k] < attrs.len() && crate::tokens::attr_is_ident(
                    attrs[idx[k]],
                    name,
                )
            &&& forall|k1: int, k2: int| 0 <= k1 < k2 < idx.len() ==> #[trigger] idx[k1] < #[trigger] idx[k2]
            &&& forall|p: int|
                i <= p < attrs.len() && crate::tokens::attr_is_ident(#[trigger] attrs[p], name) ==> idx.contains(p)
        }),
    decreases attrs.len() - i,
{
    if i < attrs.len() {
        lemma_named_attr_indices_from(attrs, name, i + 1);
        let rest = spec_named_attr_indices(attrs, name, i + 1);
        let idx = spec_named_attr_indices(attrs, name, i);
        if crate::tokens::attr_is_ident(attrs[i], name) {
            assert(idx == seq![i] + rest);
            assert forall|k: int| 0 <= k < idx.len() implies i <= #[trigger] idx[k] < attrs.len()
                && crate::tokens::attr_is_ident(attrs[idx[k]], name) by {
                if k > 0 {
                    assert(idx[k] == rest[k - 1]);
                }
            }
            assert forall|k1: int, k2: int| 0 <= k1 < k2 < idx.len() implies #[trigger] idx[k1] < #[trigger] idx[k2] by {
                assert(idx[k2] == rest[k2 - 1]);
                if k1 > 0 {
                    assert(idx[k1] == rest[k1 - 1]);
                }
            }
            assert forall|p: int|
                i <= p < attrs.len() && crate::tokens::attr_is_ident(#[trigger] attrs[p], name) implies idx.contains(p) by {
                if p == i {
                    assert(idx[0] == i);
                } else {
                    let k = choose|k: int| 0 <= k < rest.len() && rest[k] == p;
                    assert(idx[k + 1] == p);
                }
            }
        } else {
            assert(idx == rest);
            assert forall|p: int|
                i <= p < attrs.len() && crate::tokens::attr_is_ident(#[trigger] attrs[p], name) implies idx.contains(p) by {
                assert(p != i);
            }
        }
    }
}

pub(crate) proof fn lemma_named_attr_indices_in_range(attrs: Seq<Attr>, name: Seq<char>, i: int)
    requires
        0 <= i,
    ensures
        forall|k: int|
            0 <= k < spec_named_attr_indices(attrs, name, i).len() ==> i <= #[trigger] spec_named_attr_indices(
                attrs,
                name,
                i,
            )[k] < attrs.len(),
    decreases attrs.len() - i,
{
    if i < attrs.len() {
        lemma_named_attr_indices_in_range(attrs, name, i + 1);
        let rest = spec_named_attr_indices(attrs, name, i + 1);
        if crate::tokens::attr_is_ident(attrs[i], name) {
            assert forall|k: int|
                0 <= k < spec_named_attr_indices(attrs, name, i).len() implies i
                <= #[trigger] spec_named_attr_indices(attrs, name, i)[k] < attrs.len() by {
                if k > 0 {
                    assert(spec_named_attr_indices(attrs, name, i)[k] == rest[k - 1]);
                }
            }
        }
    }
}

/// The kind that the `#[mineral(...)]` attribute of a type asks for, or the
/// errors in it.
pub open spec fn spec_ffi_type_attr(attrs: Seq<Attr>, p: Result<FfiTypeToken, SpecMineralError>) -> Result<Option<FfiTypeKindAttribute>, Seq<SpecAttrError>> {
    let (errs, found) = spec_single_list_attr(attrs, "mineral"@, p);
    let (errs2, kind) = match found {
        None => (errs, None),
        Some((a, Ok(t))) => match spec_type_kind(t) {
            Some(k) => (errs, Some(k)),
            None => (errs.push(SpecAttrError::Misplaced { attr: a as usize, token: t }), None),
        },
        Some((a, Err(e))) => (errs.push(SpecAttrError::Invalid { attr: a as usize, error: e }), None),
    };
    if errs2.len() == 0 {
        Ok(kind)
    } else {
        Err(errs2)
    }
}

/// The kind that the `#[mineral(...)]` attribute of a field asks for, or the
/// errors in it.
pub open spec fn spec_ffi_type_field_attr(attrs: Seq<Attr>, p: Result<FfiTypeToken, SpecMineralError>) -> Result<Option<FfiTypeKindFieldAttribute>, Seq<SpecAttrError>> {
    let (errs, found) = spec_single_list_attr(attrs, "mineral"@, p);
    let (errs2, kind) = match found {
        None => (errs, None),
        Some((a, Ok(t))) => match spec_field_kind(t) {
            Some(k) => (errs, Some(k)),
            None => (errs.push(SpecAttrError::Misplaced { attr: a as usize, token: t }), None),
        },
        Some((a, Err(e))) => (errs.push(SpecAttrError::Invalid { attr: a as usize, error: e }), None),
    };
    if errs2.len() == 0 {
        Ok(kind)
    } else {
        Err(errs2)
    }
}

/// The `#[mineral(...)]` attribute of a type.
#[derive(Debug, PartialEq, Eq)]
pub struct FfiTypeAttr {
    pub kind: Option<FfiTypeKindAttribute>,
}

/// The `#[mineral(...)]` attribute of a field.
#[derive(Debug, PartialEq, Eq)]
pub struct FfiTypeFieldAttr {
    pub kind: Option<FfiTypeKindFieldAttribute>,
}

/// Whether `r` is what reading the `#[mineral(...)]` attribute among
/// `attrs` gives, with `p` the outcome of reading its list.
pub open spec fn type_attr_fits(attrs: Seq<Attr>, p: Result<FfiTypeToken, SpecMineralError>, r: Result<FfiTypeAttr, Vec<AttrError>>) -> bool {
    match r {
        Ok(a) => spec_ffi_type_attr(attrs, p) == Ok::<Option<FfiTypeKindAttribute>, Seq<SpecAttrError>>(a.kind),
        Err(es) => spec_ffi_type_attr(attrs, p) == Err::<Option<FfiTypeKindAttribute>, Seq<SpecAttrError>>(attr_errors_view(es@)),
    }
}

impl FfiTypeAttr {
    /// Reads the `#[mineral(...)]` attribute among a type's attributes.
    pub fn from_attributes(attrs: &Vec<Attr>) -> (r: Result<FfiTypeAttr, Vec<AttrError>>)
        ensures
            exists|p| list_outcome_fits(attrs@, "mineral"@, p) && #[trigger] type_attr_fits(attrs@, p, r),
    {
        let located = parse_single_list_attr_opt("mineral", attrs);
        let ghost p = choose|p| list_outcome_fits(attrs@, "mineral"@, p) && #[trigger] single_list_fits(
            attrs@,
            "mineral"@,
            p,
            located,
        );
        let (mut errors, found) = located;
        let ghost e0 = attr_errors_view(errors@);
        let kind = match found {
            None => None,
            Some((a, Ok(t))) => match t {
                FfiTypeToken::Transparent(n, c) => Some(FfiTypeKindAttribute::Transparent(n, c)),
                FfiTypeToken::Opaque => Some(FfiTypeKindAttribute::Opaque),
                FfiTypeToken::Local => Some(FfiTypeKindAttribute::Local),
                FfiTypeToken::UnsafeNonOwning => {
                    let e = AttrError::Kind { attr: a, error: KindError::Misplaced(t) };
                    errors.push(e);
                    assert(attr_errors_view(errors@) =~= e0.push(e@));
                    None
                },
            },
            Some((a, Err(err))) => {
                let e = AttrError::Kind { attr: a, error: KindError::Invalid(err) };
                errors.push(e);
                assert(attr_errors_view(errors@) =~= e0.push(e@));
                None
            },
        };
        let r = if errors.len() == 0 {
            Ok(FfiTypeAttr { kind })
        } else {
            Err(errors)
        };
        assert(type_attr_fits(attrs@, p, r));
        r
    }
}

/// Whether `r` is what reading the `#[mineral(...)]` attribute among
/// `attrs` gives, with `p` the outcome of reading its list.
pub open spec fn field_attr_fits(attrs: Seq<Attr>, p: Result<FfiTypeToken, SpecMineralError>, r: Result<FfiTypeFieldAttr, Vec<AttrError>>) -> bool {
    match r {
        Ok(a) => spec_ffi_type_field_attr(attrs, p) == Ok::<Option<FfiTypeKindFieldAttribute>, Seq<SpecAttrError>>(a.kind),
        Err(es) => spec_ffi_type_field_attr(attrs, p) == Err::<Option<FfiTypeKindFieldAttribute>, Seq<SpecAttrError>>(attr_errors_view(es@)),
    }
}

impl FfiTypeFieldAttr {
    /// Reads the `#[mineral(...)]` attribute among a field's attributes.
    pub fn from_attributes(attrs: &Vec<Attr>) -> (r: Result<FfiTypeFieldAttr, Vec<AttrError>>)
        ensures
            exists|p| list_outcome_fits(attrs@, "mineral"@, p) && #[trigger] field_attr_fits(attrs@, p, r),
    {
        let located = parse_single_list_attr_opt("mineral", attrs);
        let ghost p = choose|p| list_outcome_fits(attrs@, "mineral"@, p) && #[trigger] single_list_fits(
            attrs@,
            "mineral"@,
            p,
            located,
        );
        let (mut errors, found) = located;
        let ghost e0 = attr_errors_view(errors@);
        let kind = match found {
            None => None,
            Some((a, Ok(t))) => match t {
                FfiTypeToken::UnsafeNonOwning => Some(FfiTypeKindFieldAttribute::UnsafeNonOwning),
                _ => {
                    let e = AttrError::Kind { attr: a, error: KindError::Misplaced(t) };
                    errors.push(e);
                    assert(attr_errors_view(errors@) =~= e0.push(e@));
                    None
                },
            },
            Some((a, Err(err))) => {
                let e = AttrError::Kind { attr: a, error: KindError::Invalid(err) };
                errors.push(e);
                assert(attr_errors_view(errors@) =~= e0.push(e@));
                None
            },
        };
        let r = if errors.len() == 0 {
            Ok(FfiTypeFieldAttr { kind })
        } else {
            Err(errors)
        };
        assert(field_attr_fits(attrs@, p, r));
        r
    }
}


// ---------------------------------------------------------------------------
// Messages.

/// The message of each list error.
pub open spec fn spec_mineral_message(e: SpecMineralError) -> Seq<char> {
    match e {
        SpecMineralError::ExpectedIdent { .. } => "expected ident"@,
        SpecMineralError::ExpectedUnsafeGroup { .. } => "expected `(...)` after `unsafe`"@,
        SpecMineralError::ExpectedUnsafeKind { .. } => "expected ffi type kind inside unsafe(...)"@,
        SpecMineralError::NonOwningNotAlone { .. } => "`unsafe(non_owning) should contain only one identifier"@,
        SpecMineralError::ExpectedEq { .. } => "expected `=`"@,
        SpecMineralError::InvalidClosure { message, .. } => message,
        SpecMineralError::TokensAfterClosure { .. } => "unexpected tokens after `is_valid` closure"@,
        SpecMineralError::UnknownUnsafeKind { name, .. } => "unknown unsafe ffi type kind: "@ + name,
        SpecMineralError::InvalidExpression { message, .. } => message,
        SpecMineralError::UnknownKind { name, .. } => "unknown type kind: "@ + name,
        SpecMineralError::ExpectedComma { .. } => "expected `,`"@,
        SpecMineralError::TokensAfterKind => "unexpected tokens after ffi type kind"@,
        SpecMineralError::NicheWithoutIsValid => "expected `unsafe(is_valid = ...)` when specifying `NICHE_VALUE`"@,
        SpecMineralError::ExpectedKind => "expected ffi type kind"@,
    }
}

fn concat_str(a: &str, b: &str) -> (r: String)
    ensures
        r@ == a@ + b@,
{
    let mut v = chars_of(a);
    push_str(&mut v, b);
    string_of(&v)
}

impl MineralError {
    /// The message that reports the error.
    pub fn message(&self) -> (s: String)
        ensures
            s@ == spec_mineral_message(self@),
    {
        match self {
            MineralError::ExpectedIdent { .. } => String::from_str("expected ident"),
            MineralError::ExpectedUnsafeGroup { .. } => String::from_str("expected `(...)` after `unsafe`"),
            MineralError::ExpectedUnsafeKind { .. } => String::from_str("expected ffi type kind inside unsafe(...)"),
            MineralError::NonOwningNotAlone { .. } => String::from_str(
                "`unsafe(non_owning) should contain only one identifier",
            ),
            MineralError::ExpectedEq { .. } => String::from_str("expected `=`"),
            MineralError::InvalidClosure { message, .. } => message.clone(),
            MineralError::TokensAfterClosure { .. } => String::from_str(
                "unexpected tokens after `is_valid` closure",
            ),
            MineralError::UnknownUnsafeKind { name, .. } => concat_str(
                "unknown unsafe ffi type kind: ",
                name.as_str(),
            ),
            MineralError::InvalidExpression { message, .. } => message.clone(),
            MineralError::UnknownKind { name, .. } => concat_str("unknown type kind: ", name.as_str()),
            MineralError::ExpectedComma { .. } => String::from_str("expected `,`"),
            MineralError::TokensAfterKind => String::from_str("unexpected tokens after ffi type kind"),
            MineralError::NicheWithoutIsValid => String::from_str(
                "expected `unsafe(is_valid = ...)` when specifying `NICHE_VALUE`",
            ),
            MineralError::ExpectedKind => String::from_str("expected ffi type kind"),
        }
    }
}

/// The text of tokens as they are printed: separated by single spaces, a
/// punctuation joined to the next token, nothing after the last.
pub open spec fn token_text(s: Seq<SpecTok>) -> Seq<char> {
    let r = render(s);
    if r.len() > 0 && r.last() == ' ' {
        r.drop_last()
    } else {
        r
    }
}

/// The text of the list tokens `a..b`, or nothing where that is no range of them.
pub open spec fn range_text(s: Seq<SpecTok>, a: int, b: int) -> Seq<char> {
    if 0 <= a <= b <= s.len() {
        token_text(s.subrange(a, b))
    } else {
        Seq::empty()
    }
}

/// The tokens of the closure that `c` places.
pub open spec fn closure_text(s: Seq<SpecTok>, c: ClosureTokens) -> Seq<char> {
    if c.group < s.len() {
        match s[c.group as int] {
            SpecTok::Group(_, inner) => range_text(inner, c.start as int, inner.len() as int),
            _ => Seq::empty(),
        }
    } else {
        Seq::empty()
    }
}

/// How an attribute kind is written, its expressions taken from the list
/// tokens `s`.
pub open spec fn spec_token_display(s: Seq<SpecTok>, t: FfiTypeToken) -> Seq<char> {
    match t {
        FfiTypeToken::UnsafeNonOwning => "#[mineral(unsafe(non_owning))]"@,
        FfiTypeToken::Opaque => "#[mineral(opaque)]"@,
        FfiTypeToken::Local => "#[mineral(local)]"@,
        FfiTypeToken::Transparent(niche, c) => "#[mineral("@ + match niche {
            Some(r) => "NICHE_VALUE = "@ + range_text(s, r.start as int, r.end as int) + ", "@,
            None => Seq::empty(),
        } + "unsafe(is_valid = "@ + closure_text(s, c) + "))]"@,
    }
}

fn text_of_range(toks: &Vec<Tok>, a: usize, b: usize) -> (r: Vec<char>)
    ensures
        r@ == range_text(toks_view(toks@), a as int, b as int),
{
    if a <= b && b <= toks.len() {
        let mut out: Vec<char> = Vec::new();
        render_range_into(toks, a, b, &mut out);
        assert(out@ =~= render(toks_view(toks@).subrange(a as int, b as int)));
        if out.len() > 0 && out[out.len() - 1] == ' ' {
            let _ = out.pop();
        }
        out
    } else {
        Vec::new()
    }
}

/// How an attribute kind is written, its expressions taken from the list
/// tokens `toks`.
pub fn ffi_type_token_text(toks: &Vec<Tok>, t: FfiTypeToken) -> (r: String)
    ensures
        r@ == spec_token_display(toks_view(toks@), t),
{
    match t {
        FfiTypeToken::UnsafeNonOwning => String::from_str("#[mineral(unsafe(non_owning))]"),
        FfiTypeToken::Opaque => String::from_str("#[mineral(opaque)]"),
        FfiTypeToken::Local => String::from_str("#[mineral(local)]"),
        FfiTypeToken::Transparent(niche, c) => {
            let ghost sv = toks_view(toks@);
            let mut out = chars_of("#[mineral(");
            match niche {
                Some(r) => {
                    push_str(&mut out, "NICHE_VALUE = ");
                    let t = text_of_range(toks, r.start, r.end);
                    push_chars(&mut out, &t);
                    push_str(&mut out, ", ");
                },
                None => {},
            }
            push_str(&mut out, "unsafe(is_valid = ");
            if c.group < toks.len() {
                assert(sv[c.group as int] == toks@[c.group as int]@);
                match &toks[c.group] {
                    Tok::Group(_, inner) => {
                        let t = text_of_range(inner, c.start, inner.len());
                        push_chars(&mut out, &t);
                    },
                    _ => {},
                }
            }
            push_str(&mut out, "))]");
            assert(out@ =~= spec_token_display(sv, t));
            string_of(&out)
        },
    }
}

/// The message of an attribute error about `#[attr_name(...)]` among
/// `attrs`, on a field where `on_field` holds and on a type otherwise.
pub open spec fn spec_attr_message(
    e: SpecAttrError,
    attr_name: Seq<char>,
    attrs: Seq<Attr>,
    on_field: bool,
) -> Seq<char> {
    match e {
        SpecAttrError::Duplicate { .. } => "Only one #["@ + attr_name + "] attribute is allowed!"@,
        SpecAttrError::NotList { .. } => "Expected #["@ + attr_name + "(...)] attribute to be a list"@,
        SpecAttrError::Invalid { error, .. } => spec_mineral_message(error),
        SpecAttrError::Misplaced { attr, token } => "`"@ + spec_token_display(
            if attr < attrs.len() {
                match attrs[attr as int].meta {
                    AttrMeta::List(toks) => toks_view(toks@),
                    _ => Seq::empty(),
                }
            } else {
                Seq::empty()
            },
            token,
        ) + (if on_field {
            "` cannot be used on a field"@
        } else {
            "` cannot be used on a type"@
        }),
    }
}

impl AttrError {
    /// The message that reports the error.
    pub fn message(&self, attr_name: &str, attrs: &Vec<Attr>, on_field: bool) -> (s: String)
        ensures
            s@ == spec_attr_message(self@, attr_name@, attrs@, on_field),
    {
        match self {
            AttrError::Duplicate { .. } => {
                let mut v = chars_of("Only one #[");
                push_str(&mut v, attr_name);
                push_str(&mut v, "] attribute is allowed!");
                string_of(&v)
            },
            AttrError::NotList { .. } => {
                let mut v = chars_of("Expected #[");
                push_str(&mut v, attr_name);
                push_str(&mut v, "(...)] attribute to be a list");
                string_of(&v)
            },
            AttrError::Kind { error: KindError::Invalid(e), .. } => e.message(),
            AttrError::Kind { attr, error: KindError::Misplaced(t) } => {
                let mut v = chars_of("`");
                let empty: Vec<Tok> = Vec::new();
                let shown = if *attr < attrs.len() {
                    match &attrs[*attr].meta {
                        AttrMeta::List(toks) => ffi_type_token_text(toks, *t),
                        _ => ffi_type_token_text(&empty, *t),
                    }
                } else {
                    ffi_type_token_text(&empty, *t)
                };
                assert(toks_view(empty@) =~= Seq::<SpecTok>::empty());
                push_str(&mut v, shown.as_str());
                if on_field {
                    push_str(&mut v, "` cannot be used on a field");
                } else {
                    push_str(&mut v, "` cannot be used on a type");
                }
                string_of(&v)
            },
        }
    }
}

} // verus!

