//! Rewriting the tokens of a declaration before it is parsed: the
//! tagged-dispatch predicates of a `where` clause become the list of an
//! `#[erased(...)]` attribute.
use vstd::prelude::*;
use crate::tokens::{Delimiter, SpecTok, Tok, clone_tok, toks_view};
use crate::mineral::{render, render_range};
use crate::text::str_eq;

verus! {

/// Whether the token is the punctuation character `c`.
pub open spec fn punct_is(t: SpecTok, c: char) -> bool {
    match t {
        SpecTok::Punct(p, _) => p == c,
        _ => false,
    }
}

/// Whether the token is the identifier `name`.
pub open spec fn ident_is(t: SpecTok, name: Seq<char>) -> bool {
    match t {
        SpecTok::Ident(x) => x == name,
        _ => false,
    }
}

/// The ranges with the last one ending at `end`.
pub open spec fn extend_last(rs: Seq<(int, int)>, end: int) -> Seq<(int, int)> {
    rs.update(rs.len() - 1, (rs.last().0, end))
}

/// Splitting the first `n` tokens at each `sep` outside angle brackets: the
/// ranges of the parts, and the depth of angle brackets reached. A `<` opens
/// a bracket and a `>` closes one, where one is open.
pub open spec fn split_ranges(s: Seq<SpecTok>, sep: char, n: int) -> (Seq<(int, int)>, int)
    decreases n,
{
    if n <= 0 || n > s.len() {
        (Seq::empty(), 0)
    } else {
        let (rs, d) = split_ranges(s, sep, n - 1);
        let rs1 = if rs.len() == 0 {
            seq![(n - 1, n - 1)]
        } else {
            rs
        };
        let t = s[n - 1];
        if punct_is(t, '<') {
            (extend_last(rs1, n), d + 1)
        } else if punct_is(t, '>') {
            (extend_last(rs1, n), if d > 0 {
                d - 1
            } else {
                0
            })
        } else if punct_is(t, sep) && d == 0 {
            (rs1.push((n, n)), d)
        } else {
            (extend_last(rs1, n), d)
        }
    }
}

/// The parts of the tokens between the separators `sep` outside angle
/// brackets.
pub open spec fn split_top_level(s: Seq<SpecTok>, sep: char) -> Seq<(int, int)> {
    split_ranges(s, sep, s.len() as int).0
}

/// Every range lies within the first `n` tokens, in order.
pub open spec fn ranges_within(rs: Seq<(int, int)>, n: int) -> bool {
    forall|k: int| 0 <= k < rs.len() ==> 0 <= #[trigger] rs[k].0 <= rs[k].1 <= n
}

pub(crate) proof fn lemma_split_within(s: Seq<SpecTok>, sep: char, n: int)
    requires
        0 <= n <= s.len(),
    ensures
        ranges_within(split_ranges(s, sep, n).0, n),
        n > 0 ==> split_ranges(s, sep, n).0.len() > 0 && split_ranges(s, sep, n).0.last().1 == n,
        split_ranges(s, sep, n).1 >= 0,
    decreases n,
{
    if n > 0 {
        lemma_split_within(s, sep, n - 1);
    }
}

/// The ranges of the parts of `v` between the separators `sep` outside
/// angle brackets.
pub fn split_ranges_exec(v: &Vec<Tok>, sep: char) -> (r: Vec<(usize, usize)>)
    ensures
        r@.len() == split_top_level(toks_view(v@), sep).len(),
        forall|k: int| 0 <= k < r@.len() ==> (r@[k].0 as int, r@[k].1 as int) == #[trigger] split_top_level(toks_view(v@), sep)[k],
        ranges_within(split_top_level(toks_view(v@), sep), v@.len() as int),
{
    let ghost sv = toks_view(v@);
    let mut rs: Vec<(usize, usize)> = Vec::new();
    let mut depth: usize = 0;
    let mut i: usize = 0;
    while i < v.len()
        invariant
            sv == toks_view(v@),
            i <= v@.len(),
            depth <= i,
            rs@.len() == split_ranges(sv, sep, i as int).0.len(),
            forall|k: int| 0 <= k < rs@.len() ==> (rs@[k].0 as int, rs@[k].1 as int) == #[trigger] split_ranges(sv, sep, i as int).0[k],
            depth as int == split_ranges(sv, sep, i as int).1,
        decreases v@.len() - i,
    {
        proof {
            lemma_split_within(sv, sep, i as int);
        }
        if rs.len() == 0 {
            rs.push((i, i));
        }
        let (is_lt, is_gt, is_sep) = match &v[i] {
            Tok::Punct(c, _) => (*c == '<', *c == '>', *c == sep),
            _ => (false, false, false),
        };
        assert(sv[i as int] == v@[i as int]@);
        let last = rs.len() - 1;
        if is_lt {
            let start = rs[last].0;
            rs.set(last, (start, i + 1));
            depth = depth + 1;
        } else if is_gt {
            let start = rs[last].0;
            rs.set(last, (start, i + 1));
            if depth > 0 {
                depth = depth - 1;
            }
        } else if is_sep && depth == 0 {
            rs.push((i + 1, i + 1));
        } else {
            let start = rs[last].0;
            rs.set(last, (start, i + 1));
        }
        i = i + 1;
    }
    proof {
        lemma_split_within(sv, sep, v@.len() as int);
    }
    rs
}

/// The position of the first token from `i` on that is the identifier `name`.
pub open spec fn first_ident(s: Seq<SpecTok>, name: Seq<char>, i: int) -> Option<int>
    decreases s.len() - i,
{
    if i < 0 || i >= s.len() {
        None
    } else if ident_is(s[i], name) {
        Some(i)
    } else {
        first_ident(s, name, i + 1)
    }
}

/// The position of the first token from `i` on that is the punctuation `c`.
pub open spec fn first_punct(s: Seq<SpecTok>, c: char, i: int) -> Option<int>
    decreases s.len() - i,
{
    if i < 0 || i >= s.len() {
        None
    } else if punct_is(s[i], c) {
        Some(i)
    } else {
        first_punct(s, c, i + 1)
    }
}

fn find_ident(v: &Vec<Tok>, name: &str) -> (r: Option<usize>)
    ensures
        match r {
            Some(i) => first_ident(toks_view(v@), name@, 0) == Some(i as int),
            None => first_ident(toks_view(v@), name@, 0) is None,
        },
{
    let ghost sv = toks_view(v@);
    let mut i: usize = 0;
    while i < v.len()
        invariant
            sv == toks_view(v@),
            i <= v@.len(),
            first_ident(sv, name@, 0) == first_ident(sv, name@, i as int),
        decreases v@.len() - i,
    {
        assert(sv[i as int] == v@[i as int]@);
        let hit = match &v[i] {
            Tok::Ident(x) => str_eq(x.as_str(), name),
            _ => false,
        };
        if hit {
            return Some(i);
        }
        i = i + 1;
    }
    None
}

fn find_punct(v: &Vec<Tok>, c: char) -> (r: Option<usize>)
    ensures
        match r {
            Some(i) => first_punct(toks_view(v@), c, 0) == Some(i as int),
            None => first_punct(toks_view(v@), c, 0) is None,
        },
{
    let ghost sv = toks_view(v@);
    let mut i: usize = 0;
    while i < v.len()
        invariant
            sv == toks_view(v@),
            i <= v@.len(),
            first_punct(sv, c, 0) == first_punct(sv, c, i as int),
        decreases v@.len() - i,
    {
        assert(sv[i as int] == v@[i as int]@);
        let hit = match &v[i] {
            Tok::Punct(p, _) => *p == c,
            _ => false,
        };
        if hit {
            return Some(i);
        }
        i = i + 1;
    }
    None
}

/// A copy of the tokens `from..to`.
pub(crate) fn copy_range(v: &Vec<Tok>, from: usize, to: usize) -> (r: Vec<Tok>)
    requires
        from <= to <= v@.len(),
    ensures
        toks_view(r@) == toks_view(v@).subrange(from as int, to as int),
{
    let mut out: Vec<Tok> = Vec::new();
    let mut i: usize = from;
    while i < to
        invariant
            from <= i <= to <= v@.len(),
            out@.len() == i - from,
            forall|j: int| 0 <= j < i - from ==> (#[trigger] out@[j])@ == v@[from + j]@,
        decreases to - i,
    {
        out.push(clone_tok(&v[i]));
        i = i + 1;
    }
    assert(toks_view(out@) =~= toks_view(v@).subrange(from as int, to as int));
    out
}

/// The parts joined with the token `sep` between each two.
pub open spec fn join_with(parts: Seq<Seq<SpecTok>>, sep: SpecTok) -> Seq<SpecTok>
    decreases parts.len(),
{
    if parts.len() == 0 {
        Seq::empty()
    } else if parts.len() == 1 {
        parts[0]
    } else {
        join_with(parts.drop_last(), sep) + seq![sep] + parts.last()
    }
}

/// Appends `part` to `out`, after `sep` where `out` already holds a part.
fn push_part(out: &mut Vec<Tok>, first: bool, part: &Vec<Tok>, sep: char, Ghost(done): Ghost<Seq<Seq<SpecTok>>>)
    requires
        toks_view(old(out)@) == join_with(done, SpecTok::Punct(sep, false)),
        first == (done.len() == 0),
    ensures
        toks_view(final(out)@) == join_with(done.push(toks_view(part@)), SpecTok::Punct(sep, false)),
{
    let ghost before = toks_view(out@);
    if !first {
        out.push(Tok::Punct(sep, false));
        assert(toks_view(out@) =~= before.push(SpecTok::Punct(sep, false)));
    }
    let mut i: usize = 0;
    let ghost mid = toks_view(out@);
    while i < part.len()
        invariant
            i <= part@.len(),
            toks_view(out@) == mid + toks_view(part@).subrange(0, i as int),
        decreases part@.len() - i,
    {
        let ghost prev = out@;
        out.push(clone_tok(&part[i]));
        assert(toks_view(out@) =~= toks_view(prev).push(part@[i as int]@));
        i = i + 1;
        assert(toks_view(out@) =~= mid + toks_view(part@).subrange(0, i as int));
    }
    assert(toks_view(part@).subrange(0, part@.len() as int) =~= toks_view(part@));
    assert(done.push(toks_view(part@)).drop_last() =~= done);
    if first {
        assert(mid =~= Seq::<SpecTok>::empty());
        assert(toks_view(out@) =~= toks_view(part@));
    } else {
        assert(mid =~= before + seq![SpecTok::Punct(sep, false)]);
    }
}

// ---------------------------------------------------------------------------
// What `syn` says of predicate text.

/// Whether `r` is a possible outcome of `syn` reading the text as
/// precise-capturing parameters `use<...>`: `None` where it refuses the
/// text, else whether each parameter is a lifetime.
pub uninterp spec fn capture_outcome(text: Seq<char>, r: Option<Seq<bool>>) -> bool;

/// Whether `r` is a possible outcome of `syn` reading the text as
/// angle-bracketed generic arguments: whether it accepts the text.
pub uninterp spec fn angle_outcome(text: Seq<char>, r: bool) -> bool;

/// Whether `r` is a possible outcome of `syn` reading the text as a type:
/// whether it accepts the text.
pub uninterp spec fn type_outcome(text: Seq<char>, r: bool) -> bool;

/// Calls `syn::parse_str::<syn::PreciseCapture>` and tells, for each
/// parameter read, whether it is a lifetime. The outcome is only said to be
/// a possible one for the text: which lexer runs is not a function of the
/// text.
#[verifier::external_body]
pub(crate) fn syn_precise_capture(text: &str) -> (r: Option<Vec<bool>>)
    ensures
        capture_outcome(text@, opt_bools_view(r)),
{
    syn::parse_str::<syn::PreciseCapture>(text).ok().map(
        |p| p.params.iter().map(|c| matches!(c, syn::CapturedParam::Lifetime(_))).collect(),
    )
}

/// Calls `syn::parse_str::<syn::AngleBracketedGenericArguments>` and tells
/// whether it reads the text. The outcome is only said to be a possible one
/// for the text.
#[verifier::external_body]
pub(crate) fn syn_angle_args(text: &str) -> (r: bool)
    ensures
        angle_outcome(text@, r),
{
    syn::parse_str::<syn::AngleBracketedGenericArguments>(text).is_ok()
}

/// What `syn` said of the tagged-dispatch predicates of a `where` clause,
/// by the position of the predicate among those of the clause: of the
/// tokens before its `@`, whether they read as `use<...>` and which of the
/// parameters are lifetimes; of its targets (each part of a parenthesized
/// group split at `|`, or the tokens after the `@` as one), whether each
/// reads as generic arguments.
#[derive(Debug, PartialEq, Eq)]
pub struct WhereReadings {
    pub capture: Vec<Option<Vec<bool>>>,
    pub angles: Vec<Vec<bool>>,
}

/// The value of where-clause readings.
pub struct SpecWhereReadings {
    pub capture: Seq<Option<Seq<bool>>>,
    pub angles: Seq<Seq<bool>>,
}

impl View for WhereReadings {
    type V = SpecWhereReadings;

    open spec fn view(&self) -> SpecWhereReadings {
        SpecWhereReadings {
            capture: Seq::new(
                self.capture@.len(),
                |k: int| match self.capture@[k] {
                    Some(v) => Some(v@),
                    None => None,
                },
            ),
            angles: Seq::new(self.angles@.len(), |k: int| self.angles@[k]@),
        }
    }
}

/// What `syn` said of the parameters of the predicate at `k`; refused where
/// nothing was read.
pub open spec fn capture_at(rd: SpecWhereReadings, k: int) -> Option<Seq<bool>> {
    if 0 <= k < rd.capture.len() {
        rd.capture[k]
    } else {
        None
    }
}

/// What `syn` said of the targets of the predicate at `k`.
pub open spec fn angles_at(rd: SpecWhereReadings, k: int) -> Seq<bool> {
    if 0 <= k < rd.angles.len() {
        rd.angles[k]
    } else {
        Seq::empty()
    }
}

/// Whether `syn` read target `m` as generic arguments; refused where
/// nothing was read.
pub open spec fn angle_ok(angles: Seq<bool>, m: int) -> bool {
    0 <= m < angles.len() && angles[m]
}

// ---------------------------------------------------------------------------
// The `where` clause.

/// Why the tagged-dispatch predicates of a `where` clause were refused, with
/// the positions of the tokens concerned: among the declaration's tokens, or
/// among those inside the group at position `group`.
#[derive(Debug, Clone, Copy, PartialEq, Eq, Structural)]
pub enum WhereError {
    PredicateAfterDispatch { start: usize, end: usize },
    ExpectedUseParams { start: usize, end: usize },
    LifetimeParam { start: usize, end: usize, param: usize },
    ExpectedTypeList { start: usize, end: usize },
    ExpectedTypeListIn { group: usize, start: usize, end: usize },
}

/// The message of an error.
pub open spec fn spec_where_message(e: WhereError) -> Seq<char> {
    match e {
        WhereError::PredicateAfterDispatch { .. } => "tagged-dispatch predicates must be last in a `where` clause"@,
        WhereError::ExpectedUseParams { .. } => "expected dispatch parameters such as `use<T>` before `@`"@,
        WhereError::LifetimeParam { .. } => "dispatch parameters cannot be lifetimes"@,
        WhereError::ExpectedTypeList { .. } => "expected a tagged-dispatch type list such as `<Type>`"@,
        WhereError::ExpectedTypeListIn { .. } => "expected a tagged-dispatch type list such as `<Type>`"@,
    }
}

impl WhereError {
    /// The message of the error.
    pub fn message(&self) -> (s: String)
        ensures
            s@ == spec_where_message(*self),
    {
        match self {
            WhereError::PredicateAfterDispatch { .. } => String::from_str(
                "tagged-dispatch predicates must be last in a `where` clause",
            ),
            WhereError::ExpectedUseParams { .. } => String::from_str(
                "expected dispatch parameters such as `use<T>` before `@`",
            ),
            WhereError::LifetimeParam { .. } => String::from_str("dispatch parameters cannot be lifetimes"),
            WhereError::ExpectedTypeList { .. } => String::from_str(
                "expected a tagged-dispatch type list such as `<Type>`",
            ),
            WhereError::ExpectedTypeListIn { .. } => String::from_str(
                "expected a tagged-dispatch type list such as `<Type>`",
            ),
        }
    }
}

/// The values of a sequence of token lists.
pub open spec fn parts_view(v: Seq<Vec<Tok>>) -> Seq<Seq<SpecTok>> {
    Seq::new(v.len(), |i: int| toks_view(v[i]@))
}

/// The position of the first `true` from `i` on.
pub open spec fn first_true(s: Seq<bool>, i: int) -> Option<int>
    decreases s.len() - i,
{
    if i < 0 || i >= s.len() {
        None
    } else if s[i] {
        Some(i)
    } else {
        first_true(s, i + 1)
    }
}

/// The position of the first of the parts `rs` of `inner`, from the `m`-th
/// on, that `syn` does not read as generic arguments.
pub open spec fn first_bad_target(angles: Seq<bool>, rs: Seq<(int, int)>, m: int) -> Option<int>
    decreases rs.len() - m,
{
    if m < 0 || m >= rs.len() {
        None
    } else if !angle_ok(angles, m) {
        Some(m)
    } else {
        first_bad_target(angles, rs, m + 1)
    }
}

/// The targets after the `@` of a predicate, which start at position
/// `start`: the parts between the `|` of a single parenthesized group, or the
/// tokens themselves; each must read as generic arguments.
pub open spec fn spec_targets(t: Seq<SpecTok>, start: int, angles: Seq<bool>) -> Result<Seq<Seq<SpecTok>>, WhereError> {
    if t.len() == 1 && t[0] matches SpecTok::Group(Delimiter::Parenthesis, inner) {
        let inner = t[0]->Group_1;
        let rs = split_top_level(inner, '|');
        match first_bad_target(angles, rs, 0) {
            Some(m) => Err(
                WhereError::ExpectedTypeListIn { group: start as usize, start: rs[m].0 as usize, end: rs[m].1 as usize },
            ),
            None => Ok(Seq::new(rs.len(), |m: int| inner.subrange(rs[m].0, rs[m].1))),
        }
    } else if angle_ok(angles, 0) {
        Ok(seq![t])
    } else {
        Err(WhereError::ExpectedTypeList { start: start as usize, end: (start + t.len()) as usize })
    }
}

/// A tagged-dispatch predicate as it stands in the `#[erased(...)]` list:
/// `use<...> @ (target | ...)`.
pub open spec fn dispatch_entry(params: Seq<SpecTok>, targets: Seq<Seq<SpecTok>>) -> Seq<SpecTok> {
    params + seq![
        SpecTok::Punct('@', false),
        SpecTok::Group(Delimiter::Parenthesis, join_with(targets, SpecTok::Punct('|', false))),
    ]
}

/// The `#[erased(...)]` entry of a predicate `p` with its `@` at `at`, the
/// predicate starting at position `start`: the parameters before the `@`
/// must read as `use<...>` without lifetimes, and the targets after it must
/// read as generic arguments.
pub open spec fn spec_entry(p: Seq<SpecTok>, at: int, start: int, cap: Option<Seq<bool>>, angles: Seq<bool>) -> Result<Seq<SpecTok>, WhereError> {
    let params = p.subrange(0, at);
    match cap {
        None => Err(WhereError::ExpectedUseParams { start: start as usize, end: (start + p.len()) as usize }),
        Some(ls) => match first_true(ls, 0) {
            Some(j) => Err(
                WhereError::LifetimeParam { start: start as usize, end: (start + at) as usize, param: j as usize },
            ),
            None => match spec_targets(p.subrange(at + 1, p.len() as int), start + at + 1, angles) {
                Err(e) => Err(e),
                Ok(ts) => Ok(dispatch_entry(params, ts)),
            },
        },
    }
}

/// Reading the predicate `preds[a..b]` (which starts at position `off + a`
/// of the declaration) after the predicates `kept` and the dispatch entries
/// `disp`: a predicate without `@` is kept, unless a dispatch predicate came
/// before; one with `@` needs `use<...>` parameters, none a lifetime, and
/// targets.
pub open spec fn where_step(
    preds: Seq<SpecTok>,
    off: int,
    a: int,
    b: int,
    kept: Seq<Seq<SpecTok>>,
    disp: Seq<Seq<SpecTok>>,
    cap: Option<Seq<bool>>,
    angles: Seq<bool>,
) -> Result<(Seq<Seq<SpecTok>>, Seq<Seq<SpecTok>>), WhereError> {
    let p = preds.subrange(a, b);
    if p.len() == 0 {
        Ok((kept, disp))
    } else {
        match first_punct(p, '@', 0) {
            None => if disp.len() > 0 {
                Err(WhereError::PredicateAfterDispatch { start: (off + a) as usize, end: (off + b) as usize })
            } else {
                Ok((kept.push(p), disp))
            },
            Some(at) => match spec_entry(p, at, off + a, cap, angles) {
                Err(e) => Err(e),
                Ok(entry) => Ok((kept, disp.push(entry))),
            },
        }
    }
}

/// Reading the first `k` predicates.
pub open spec fn where_scan(preds: Seq<SpecTok>, off: int, rs: Seq<(int, int)>, rd: SpecWhereReadings, k: int) -> Result<
    (Seq<Seq<SpecTok>>, Seq<Seq<SpecTok>>),
    WhereError,
>
    decreases k,
{
    if k <= 0 || k > rs.len() {
        Ok((Seq::empty(), Seq::empty()))
    } else {
        match where_scan(preds, off, rs, rd, k - 1) {
            Err(e) => Err(e),
            Ok((kept, disp)) => where_step(
                preds,
                off,
                rs[k - 1].0,
                rs[k - 1].1,
                kept,
                disp,
                capture_at(rd, k - 1),
                angles_at(rd, k - 1),
            ),
        }
    }
}

/// The declaration's tokens with the tagged-dispatch predicates taken out of
/// its `where` clause (and the `where` dropped where nothing else is left),
/// and the list of the `#[erased(...)]` attribute that they make, if any.
pub open spec fn spec_preprocess_where(toks: Seq<SpecTok>, rd: SpecWhereReadings) -> Result<(Seq<SpecTok>, Option<Seq<SpecTok>>), WhereError> {
    match first_ident(toks, "where"@, 0) {
        None => Ok((toks, None)),
        Some(w) => {
            let preds = toks.subrange(w + 1, toks.len() as int);
            let rs = split_top_level(preds, ',');
            match where_scan(preds, w + 1, rs, rd, rs.len() as int) {
                Err(e) => Err(e),
                Ok((kept, disp)) => Ok(
                    (
                        if kept.len() == 0 {
                            toks.subrange(0, w)
                        } else {
                            toks.subrange(0, w) + seq![SpecTok::Ident("where"@)] + join_with(
                                kept,
                                SpecTok::Punct(',', false),
                            )
                        },
                        if disp.len() == 0 {
                            None
                        } else {
                            Some(join_with(disp, SpecTok::Punct(',', false)))
                        },
                    ),
                ),
            }
        },
    }
}

#[verifier::loop_isolation(false)]
fn targets_exec(t: &Vec<Tok>, start: usize, angles: &Vec<bool>) -> (r: Result<Vec<Vec<Tok>>, WhereError>)
    requires
        start + t@.len() <= usize::MAX,
    ensures
        match r {
            Ok(v) => spec_targets(toks_view(t@), start as int, angles@) == Ok::<Seq<Seq<SpecTok>>, WhereError>(parts_view(v@)),
            Err(e) => spec_targets(toks_view(t@), start as int, angles@) == Err::<Seq<Seq<SpecTok>>, WhereError>(e),
        },
{
    let ghost tv = toks_view(t@);
    if t.len() == 1 {
        assert(tv[0] == t@[0]@);
        if let Tok::Group(Delimiter::Parenthesis, inner) = &t[0] {
            let ghost iv = toks_view(inner@);
            assert(tv[0] == SpecTok::Group(Delimiter::Parenthesis, iv));
            let rs = split_ranges_exec(inner, '|');
            let ghost srs = split_top_level(iv, '|');
            let mut out: Vec<Vec<Tok>> = Vec::new();
            let mut m: usize = 0;
            while m < rs.len()
                invariant
                    iv == toks_view(inner@),
                    srs == split_top_level(iv, '|'),
                    rs@.len() == srs.len(),
                    forall|k: int| 0 <= k < rs@.len() ==> (rs@[k].0 as int, rs@[k].1 as int) == #[trigger] srs[k],
                    ranges_within(srs, inner@.len() as int),
                    m <= rs@.len(),
                    first_bad_target(angles@, srs, 0) == first_bad_target(angles@, srs, m as int),
                    parts_view(out@) == Seq::new(m as nat, |x: int| iv.subrange(srs[x].0, srs[x].1)),
                decreases rs@.len() - m,
            {
                let (a, b) = rs[m];
                assert(srs[m as int] == (a as int, b as int));
                if !(m < angles.len() && angles[m]) {
                    assert(first_bad_target(angles@, srs, m as int) == Some(m as int));
                    assert(tv.len() == 1 && tv[0] matches SpecTok::Group(Delimiter::Parenthesis, _));
                    assert(tv[0]->Group_1 == iv);
                    assert(spec_targets(tv, start as int, angles@) == Err::<Seq<Seq<SpecTok>>, WhereError>(
                        WhereError::ExpectedTypeListIn { group: start, start: a, end: b },
                    ));
                    return Err(WhereError::ExpectedTypeListIn { group: start, start: a, end: b });
                }
                let part = copy_range(inner, a, b);
                let ghost before = out@;
                out.push(part);
                assert(parts_view(out@) =~= parts_view(before).push(iv.subrange(a as int, b as int)));
                assert(parts_view(out@) =~= Seq::new((m + 1) as nat, |x: int| iv.subrange(srs[x].0, srs[x].1)));
                m = m + 1;
            }
            assert(parts_view(out@) =~= Seq::new(srs.len(), |x: int| iv.subrange(srs[x].0, srs[x].1)));
            return Ok(out);
        }
    }
    assert(tv.subrange(0, t@.len() as int) =~= tv);
    if 0 < angles.len() && angles[0] {
        let mut out: Vec<Vec<Tok>> = Vec::new();
        out.push(copy_range(t, 0, t.len()));
        assert(parts_view(out@) =~= seq![tv]);
        Ok(out)
    } else {
        Err(WhereError::ExpectedTypeList { start, end: start + t.len() })
    }
}

fn first_true_exec(v: &Vec<bool>) -> (r: Option<usize>)
    ensures
        match r {
            Some(j) => first_true(v@, 0) == Some(j as int),
            None => first_true(v@, 0) is None,
        },
{
    let mut j: usize = 0;
    while j < v.len()
        invariant
            j <= v@.len(),
            first_true(v@, 0) == first_true(v@, j as int),
        decreases v@.len() - j,
    {
        if v[j] {
            return Some(j);
        }
        j = j + 1;
    }
    None
}

fn where_step_exec(
    preds: &Vec<Tok>,
    off: usize,
    a: usize,
    b: usize,
    kept: &mut Vec<Vec<Tok>>,
    disp: &mut Vec<Vec<Tok>>,
    cap: &Option<Vec<bool>>,
    angles: &Vec<bool>,
) -> (r: Result<(), WhereError>)
    requires
        a <= b <= preds@.len(),
        off + preds@.len() <= usize::MAX,
    ensures
        match r {
            Ok(_) => where_step(toks_view(preds@), off as int, a as int, b as int, parts_view(old(kept)@), parts_view(old(disp)@), opt_bools_view(*cap), angles@)
                == Ok::<(Seq<Seq<SpecTok>>, Seq<Seq<SpecTok>>), WhereError>((parts_view(final(kept)@), parts_view(final(disp)@))),
            Err(e) => where_step(toks_view(preds@), off as int, a as int, b as int, parts_view(old(kept)@), parts_view(old(disp)@), opt_bools_view(*cap), angles@)
                == Err::<(Seq<Seq<SpecTok>>, Seq<Seq<SpecTok>>), WhereError>(e),
        },
{
    let ghost k0 = parts_view(kept@);
    let ghost d0 = parts_view(disp@);
    let p = copy_range(preds, a, b);
    let ghost pv = toks_view(p@);
    if p.len() == 0 {
        return Ok(());
    }
    match find_punct(&p, '@') {
        None => {
            if disp.len() > 0 {
                return Err(WhereError::PredicateAfterDispatch { start: off + a, end: off + b });
            }
            kept.push(p);
            assert(parts_view(kept@) =~= k0.push(pv));
            Ok(())
        },
        Some(at) => {
            proof {
                lemma_first_punct_in(pv, '@', 0);
            }
            match entry_exec(&p, at, off + a, cap, angles) {
                Err(e) => Err(e),
                Ok(entry) => {
                    let ghost ev = toks_view(entry@);
                    disp.push(entry);
                    assert(parts_view(disp@) =~= d0.push(ev));
                    Ok(())
                },
            }
        },
    }
}

fn entry_exec(p: &Vec<Tok>, at: usize, start: usize, cap: &Option<Vec<bool>>, angles: &Vec<bool>) -> (r: Result<Vec<Tok>, WhereError>)
    requires
        at < p@.len(),
        start + p@.len() <= usize::MAX,
    ensures
        match r {
            Ok(e) => spec_entry(toks_view(p@), at as int, start as int, opt_bools_view(*cap), angles@) == Ok::<Seq<SpecTok>, WhereError>(toks_view(e@)),
            Err(e) => spec_entry(toks_view(p@), at as int, start as int, opt_bools_view(*cap), angles@) == Err::<Seq<SpecTok>, WhereError>(e),
        },
{
    let ghost pv = toks_view(p@);
    let ghost params = pv.subrange(0, at as int);
    let ls = match cap {
        None => return Err(WhereError::ExpectedUseParams { start, end: start + p.len() }),
        Some(ls) => ls,
    };
    if let Some(j) = first_true_exec(ls) {
        return Err(WhereError::LifetimeParam { start, end: start + at, param: j });
    }
    let rest = copy_range(p, at + 1, p.len());
    let ts = match targets_exec(&rest, start + at + 1, angles) {
        Err(e) => return Err(e),
        Ok(ts) => ts,
    };
    let mut entry = copy_range(p, 0, at);
    entry.push(Tok::Punct('@', false));
    let joined = join_parts(&ts, '|');
    let ghost ev = toks_view(entry@);
    entry.push(Tok::Group(Delimiter::Parenthesis, joined));
    assert(toks_view(entry@) =~= ev.push(
        SpecTok::Group(Delimiter::Parenthesis, join_with(parts_view(ts@), SpecTok::Punct('|', false))),
    ));
    assert(toks_view(entry@) =~= dispatch_entry(params, parts_view(ts@)));
    Ok(entry)
}

pub(crate) proof fn lemma_first_punct_in(s: Seq<SpecTok>, c: char, i: int)
    requires
        0 <= i,
    ensures
        match first_punct(s, c, i) {
            Some(k) => i <= k < s.len(),
            None => true,
        },
    decreases s.len() - i,
{
    if i < s.len() && !punct_is(s[i], c) {
        lemma_first_punct_in(s, c, i + 1);
    }
}

proof fn lemma_first_ident_in(s: Seq<SpecTok>, name: Seq<char>, i: int)
    requires
        0 <= i,
    ensures
        match first_ident(s, name, i) {
            Some(k) => i <= k < s.len(),
            None => true,
        },
    decreases s.len() - i,
{
    if i < s.len() && !ident_is(s[i], name) {
        lemma_first_ident_in(s, name, i + 1);
    }
}

/// The parts joined with the punctuation `sep` between each two.
pub(crate) fn join_parts(parts: &Vec<Vec<Tok>>, sep: char) -> (r: Vec<Tok>)
    ensures
        toks_view(r@) == join_with(parts_view(parts@), SpecTok::Punct(sep, false)),
{
    let mut joined: Vec<Tok> = Vec::new();
    let mut m: usize = 0;
    assert(toks_view(joined@) =~= join_with(Seq::<Seq<SpecTok>>::empty(), SpecTok::Punct(sep, false)));
    assert(parts_view(parts@).take(0) =~= Seq::<Seq<SpecTok>>::empty());
    while m < parts.len()
        invariant
            m <= parts@.len(),
            toks_view(joined@) == join_with(parts_view(parts@).take(m as int), SpecTok::Punct(sep, false)),
        decreases parts@.len() - m,
    {
        push_part(&mut joined, m == 0, &parts[m], sep, Ghost(parts_view(parts@).take(m as int)));
        assert(parts_view(parts@).take(m as int).push(toks_view(parts@[m as int]@)) =~= parts_view(parts@).take(m + 1));
        m = m + 1;
    }
    assert(parts_view(parts@).take(parts@.len() as int) =~= parts_view(parts@));
    joined
}

/// Appends copies of the tokens of `v` to `out`.
pub(crate) fn append_toks(out: &mut Vec<Tok>, v: &Vec<Tok>)
    ensures
        toks_view(final(out)@) == toks_view(old(out)@) + toks_view(v@),
{
    let ghost base = toks_view(out@);
    let mut i: usize = 0;
    while i < v.len()
        invariant
            i <= v@.len(),
            toks_view(out@) == base + toks_view(v@).subrange(0, i as int),
        decreases v@.len() - i,
    {
        let ghost prev = out@;
        out.push(clone_tok(&v[i]));
        assert(toks_view(out@) =~= toks_view(prev).push(v@[i as int]@));
        i = i + 1;
        assert(toks_view(out@) =~= base + toks_view(v@).subrange(0, i as int));
    }
    assert(toks_view(v@).subrange(0, v@.len() as int) =~= toks_view(v@));
}

fn where_scan_exec(preds: &Vec<Tok>, off: usize, rd: &WhereReadings) -> (r: Result<(Vec<Vec<Tok>>, Vec<Vec<Tok>>), WhereError>)
    requires
        off + preds@.len() <= usize::MAX,
    ensures
        ({
            let pv = toks_view(preds@);
            let srs = split_top_level(pv, ',');
            match r {
                Ok((kept, disp)) => where_scan(pv, off as int, srs, rd@, srs.len() as int) == Ok::<
                    (Seq<Seq<SpecTok>>, Seq<Seq<SpecTok>>),
                    WhereError,
                >((parts_view(kept@), parts_view(disp@))),
                Err(e) => where_scan(pv, off as int, srs, rd@, srs.len() as int) == Err::<
                    (Seq<Seq<SpecTok>>, Seq<Seq<SpecTok>>),
                    WhereError,
                >(e),
            }
        }),
{
    let ghost pv = toks_view(preds@);
    let rs = split_ranges_exec(preds, ',');
    let ghost srs = split_top_level(pv, ',');
    let mut kept: Vec<Vec<Tok>> = Vec::new();
    let mut disp: Vec<Vec<Tok>> = Vec::new();
    let mut k: usize = 0;
    assert(parts_view(kept@) =~= Seq::<Seq<SpecTok>>::empty());
    assert(parts_view(disp@) =~= Seq::<Seq<SpecTok>>::empty());
    while k < rs.len()
        invariant
            pv == toks_view(preds@),
            srs == split_top_level(pv, ','),
            rs@.len() == srs.len(),
            forall|x: int| 0 <= x < rs@.len() ==> (rs@[x].0 as int, rs@[x].1 as int) == #[trigger] srs[x],
            ranges_within(srs, preds@.len() as int),
            off + preds@.len() <= usize::MAX,
            k <= rs@.len(),
            where_scan(pv, off as int, srs, rd@, k as int) == Ok::<(Seq<Seq<SpecTok>>, Seq<Seq<SpecTok>>), WhereError>(
                (parts_view(kept@), parts_view(disp@)),
            ),
        decreases rs@.len() - k,
    {
        let (a, b) = rs[k];
        assert(srs[k as int] == (a as int, b as int));
        let none_cap: Option<Vec<bool>> = None;
        let no_angles: Vec<bool> = Vec::new();
        let cap = if k < rd.capture.len() { &rd.capture[k] } else { &none_cap };
        let angles = if k < rd.angles.len() { &rd.angles[k] } else { &no_angles };
        assert(opt_bools_view(*cap) == capture_at(rd@, k as int));
        assert(angles@ == angles_at(rd@, k as int));
        match where_step_exec(preds, off, a, b, &mut kept, &mut disp, cap, angles) {
            Ok(_) => {},
            Err(e) => {
                proof {
                    lemma_where_scan_err_stays(pv, off as int, srs, rd@, k + 1, srs.len() as int);
                }
                return Err(e);
            },
        }
        k = k + 1;
    }
    Ok((kept, disp))
}

/// The value of an optional list of flags.
pub open spec fn opt_bools_view(o: Option<Vec<bool>>) -> Option<Seq<bool>> {
    match o {
        Some(v) => Some(v@),
        None => None,
    }
}

/// The value of the outcome of taking the tagged-dispatch predicates out.
pub open spec fn where_result_view(r: Result<(Vec<Tok>, Option<Vec<Tok>>), WhereError>) -> Result<
    (Seq<SpecTok>, Option<Seq<SpecTok>>),
    WhereError,
> {
    match r {
        Ok((out, list)) => Ok(
            (toks_view(out@), match list {
                Some(l) => Some(toks_view(l@)),
                None => None,
            }),
        ),
        Err(e) => Err(e),
    }
}

/// Whether the readings of a predicate's targets (the tokens after its
/// `@`) are ones that `syn` may give: for each part of a single
/// parenthesized group split at `|`, or for the tokens as one, a possible
/// outcome on its rendered text.
pub open spec fn targets_reading_fits(t: Seq<SpecTok>, angles: Seq<bool>) -> bool {
    if t.len() == 1 && t[0] matches SpecTok::Group(Delimiter::Parenthesis, _) {
        let inner = t[0]->Group_1;
        let rs = split_top_level(inner, '|');
        &&& angles.len() == rs.len()
        &&& forall|m: int| 0 <= m < rs.len() ==> angle_outcome(render(inner.subrange(rs[m].0, rs[m].1)), #[trigger] angles[m])
    } else {
        angles.len() == 1 && angle_outcome(render(t), angles[0])
    }
}

/// Whether the readings of a predicate are ones that `syn` may give: where
/// it has an `@`, of the rendered tokens before it as `use<...>`, and of its
/// targets.
pub open spec fn pred_reading_fits(p: Seq<SpecTok>, cap: Option<Seq<bool>>, angles: Seq<bool>) -> bool {
    match first_punct(p, '@', 0) {
        Some(at) => capture_outcome(render(p.subrange(0, at)), cap) && targets_reading_fits(
            p.subrange(at + 1, p.len() as int),
            angles,
        ),
        None => true,
    }
}

/// Whether the readings are ones that `syn` may give of the predicates of
/// the `where` clause, one per predicate.
pub open spec fn where_readings_fit(toks: Seq<SpecTok>, rd: SpecWhereReadings) -> bool {
    match first_ident(toks, "where"@, 0) {
        None => true,
        Some(w) => {
            let preds = toks.subrange(w + 1, toks.len() as int);
            let rs = split_top_level(preds, ',');
            &&& rd.capture.len() == rs.len()
            &&& rd.angles.len() == rs.len()
            &&& forall|k: int|
                0 <= k < rs.len() ==> pred_reading_fits(preds.subrange(rs[k].0, rs[k].1), #[trigger] rd.capture[k], rd.angles[k])
        },
    }
}

/// Asks `syn` about the targets of a predicate.
fn read_targets(t: &Vec<Tok>) -> (r: Vec<bool>)
    ensures
        targets_reading_fits(toks_view(t@), r@),
{
    let ghost tv = toks_view(t@);
    let mut ang: Vec<bool> = Vec::new();
    if t.len() == 1 {
        assert(tv[0] == t@[0]@);
        if let Tok::Group(Delimiter::Parenthesis, inner) = &t[0] {
            let ghost iv = toks_view(inner@);
            assert(tv[0]->Group_1 == iv);
            let parts = split_ranges_exec(inner, '|');
            let mut m: usize = 0;
            while m < parts.len()
                invariant
                    m <= parts@.len(),
                    iv == toks_view(inner@),
                    forall|x: int| 0 <= x < parts@.len() ==> (parts@[x].0 as int, parts@[x].1 as int) == #[trigger] split_top_level(iv, '|')[x],
                    ranges_within(split_top_level(iv, '|'), inner@.len() as int),
                    parts@.len() == split_top_level(iv, '|').len(),
                    ang@.len() == m,
                    forall|x: int| 0 <= x < m ==> angle_outcome(
                        render(iv.subrange(split_top_level(iv, '|')[x].0, split_top_level(iv, '|')[x].1)),
                        #[trigger] ang@[x],
                    ),
                decreases parts@.len() - m,
            {
                let (pa, pb) = parts[m];
                assert((pa as int, pb as int) == split_top_level(iv, '|')[m as int]);
                let text = render_range(inner, pa, pb);
                ang.push(syn_angle_args(text.as_str()));
                m = m + 1;
            }
            return ang;
        }
    }
    let text = render_range(t, 0, t.len());
    assert(tv.subrange(0, t@.len() as int) =~= tv);
    ang.push(syn_angle_args(text.as_str()));
    ang
}

/// Asks `syn` about one predicate.
fn read_pred(p: &Vec<Tok>) -> (r: (Option<Vec<bool>>, Vec<bool>))
    ensures
        pred_reading_fits(toks_view(p@), opt_bools_view(r.0), r.1@),
{
    let n = p.len();
    match find_punct(p, '@') {
        Some(at) => {
            proof {
                lemma_first_punct_in(toks_view(p@), '@', 0);
                assert(first_punct(toks_view(p@), '@', 0) == Some(at as int));
                assert(toks_view(p@).len() == p@.len());
                assert(at < n);
            }
            let text = render_range(p, 0, at);
            let cap = syn_precise_capture(text.as_str());
            let rest = copy_range(p, at + 1, n);
            let ang = read_targets(&rest);
            (cap, ang)
        },
        None => (None, Vec::new()),
    }
}

/// Asks `syn` about each predicate of the `where` clause that has an `@`:
/// whether the tokens before it read as `use<...>` (and which parameters are
/// lifetimes), and whether each target reads as generic arguments. Each
/// answer is a possible one for the rendered text that `where_readings_fit`
/// names.
pub fn read_where(header: &Vec<Tok>) -> (r: WhereReadings)
    ensures
        where_readings_fit(toks_view(header@), r@),
{
    let ghost hv = toks_view(header@);
    let mut capture: Vec<Option<Vec<bool>>> = Vec::new();
    let mut angles: Vec<Vec<bool>> = Vec::new();
    let n = header.len();
    let w = match find_ident(header, "where") {
        None => {
            return WhereReadings { capture, angles };
        },
        Some(w) => w,
    };
    proof {
        lemma_first_ident_in(hv, "where"@, 0);
    }
    let preds = copy_range(header, w + 1, n);
    let ghost pv = toks_view(preds@);
    let ghost srs = split_top_level(pv, ',');
    let rs = split_ranges_exec(&preds, ',');
    let mut k: usize = 0;
    while k < rs.len()
        invariant
            k <= rs@.len(),
            pv == toks_view(preds@),
            srs == split_top_level(pv, ','),
            rs@.len() == srs.len(),
            forall|x: int| 0 <= x < rs@.len() ==> (rs@[x].0 as int, rs@[x].1 as int) == #[trigger] srs[x],
            ranges_within(srs, preds@.len() as int),
            capture@.len() == k,
            angles@.len() == k,
            forall|x: int| 0 <= x < k ==> pred_reading_fits(pv.subrange(srs[x].0, srs[x].1), opt_bools_view(#[trigger] capture@[x]), angles@[x]@),
        decreases rs@.len() - k,
    {
        let (a, b) = rs[k];
        assert((a as int, b as int) == srs[k as int]);
        let p = copy_range(&preds, a, b);
        let (cap, ang) = read_pred(&p);
        capture.push(cap);
        angles.push(ang);
        k = k + 1;
    }
    let r = WhereReadings { capture, angles };
    assert forall|x: int| 0 <= x < srs.len() implies pred_reading_fits(pv.subrange(srs[x].0, srs[x].1), #[trigger] r@.capture[x], r@.angles[x]) by {
        assert(r@.capture[x] == opt_bools_view(capture@[x]));
        assert(r@.angles[x] == angles@[x]@);
    }
    r
}

/// Takes the tagged-dispatch predicates (`use<...> @ ...`) out of the
/// `where` clause of a declaration's tokens, asking `syn` about their parts
/// (see `read_where`). Whatever `syn` answered, the outcome is what
/// `preprocess_dispatch_where_clause_with` gives for some answers.
pub fn preprocess_dispatch_where_clause(header: &Vec<Tok>) -> (r: Result<(Vec<Tok>, Option<Vec<Tok>>), WhereError>)
    ensures
        exists|rd: SpecWhereReadings| where_readings_fit(toks_view(header@), rd) && where_result_view(r) == #[trigger] spec_preprocess_where(
            toks_view(header@),
            rd,
        ),
{
    let rd = read_where(header);
    let r = preprocess_dispatch_where_clause_with(header, &rd);
    assert(where_result_view(r) == spec_preprocess_where(toks_view(header@), rd@));
    r
}

/// Takes the tagged-dispatch predicates (`use<...> @ ...`) out of the `where`
/// clause of a declaration's tokens, given what `syn` said of their parts.
/// Gives the tokens that are left and the list for an `#[erased(...)]`
/// attribute, if there were such predicates.
pub fn preprocess_dispatch_where_clause_with(header: &Vec<Tok>, rd: &WhereReadings) -> (r: Result<(Vec<Tok>, Option<Vec<Tok>>), WhereError>)
    ensures
        where_result_view(r) == spec_preprocess_where(toks_view(header@), rd@),
{
    let ghost hv = toks_view(header@);
    let n = header.len();
    let w = match find_ident(header, "where") {
        None => {
            assert(hv.subrange(0, n as int) =~= hv);
            return Ok((copy_range(header, 0, n), None));
        },
        Some(w) => w,
    };
    proof {
        lemma_first_ident_in(hv, "where"@, 0);
        assert(hv.subrange(0, n as int) =~= hv);
    }
    let preds = copy_range(header, w + 1, n);
    let (kept, disp) = match where_scan_exec(&preds, w + 1, rd) {
        Ok(x) => x,
        Err(e) => return Err(e),
    };
    let mut out = copy_range(header, 0, w);
    if kept.len() > 0 {
        out.push(Tok::Ident(String::from_str("where")));
        let joined = join_parts(&kept, ',');
        append_toks(&mut out, &joined);
        proof {
            reveal_strlit("where");
        }
        assert(toks_view(out@) =~= hv.subrange(0, w as int) + seq![SpecTok::Ident("where"@)] + join_with(
            parts_view(kept@),
            SpecTok::Punct(',', false),
        ));
    }
    if disp.len() == 0 {
        return Ok((out, None));
    }
    let list = join_parts(&disp, ',');
    Ok((out, Some(list)))
}

proof fn lemma_where_scan_err_stays(preds: Seq<SpecTok>, off: int, rs: Seq<(int, int)>, rd: SpecWhereReadings, j: int, n: int)
    requires
        0 <= j <= n <= rs.len(),
        where_scan(preds, off, rs, rd, j) is Err,
    ensures
        where_scan(preds, off, rs, rd, n) == where_scan(preds, off, rs, rd, j),
    decreases n - j,
{
    if j < n {
        lemma_where_scan_err_stays(preds, off, rs, rd, j, n - 1);
    }
}

// ---------------------------------------------------------------------------
// Erased type parameters.

/// Calls `syn::parse_str::<syn::Type>` and tells whether it reads the text.
/// The outcome is only said to be a possible one for the text: which lexer
/// runs is not a function of the text.
#[verifier::external_body]
pub(crate) fn syn_type_parses(text: &str) -> (r: bool)
    ensures
        type_outcome(text@, r),
{
    syn::parse_str::<syn::Type>(text).is_ok()
}

/// Whether `syn` read the tokens inside the group at `j` as a type; refused
/// where nothing was read.
pub open spec fn type_ok(types: Seq<bool>, j: int) -> bool {
    0 <= j < types.len() && types[j]
}

/// Whether the readings are ones that `syn` may give: for each
/// parenthesized group, a possible outcome of reading its rendered inner
/// tokens as a type; `false` at every other position.
pub open spec fn group_types_fit(s: Seq<SpecTok>, types: Seq<bool>) -> bool {
    &&& types.len() == s.len()
    &&& forall|j: int|
        0 <= j < s.len() ==> match #[trigger] s[j] {
            SpecTok::Group(Delimiter::Parenthesis, inner) => type_outcome(render(inner), types[j]),
            _ => !types[j],
        }
}

/// Asks `syn`, for each parenthesized group among the tokens, whether the
/// tokens inside it read as a type; `false` at every other position. Each
/// answer is a possible one for the group's rendered tokens.
pub fn read_group_types(header: &Vec<Tok>) -> (r: Vec<bool>)
    ensures
        group_types_fit(toks_view(header@), r@),
{
    let ghost sv = toks_view(header@);
    let mut out: Vec<bool> = Vec::new();
    let mut j: usize = 0;
    while j < header.len()
        invariant
            j <= header@.len(),
            sv == toks_view(header@),
            out@.len() == j,
            forall|x: int|
                0 <= x < j ==> match #[trigger] sv[x] {
                    SpecTok::Group(Delimiter::Parenthesis, inner) => type_outcome(render(inner), out@[x]),
                    _ => !out@[x],
                },
        decreases header@.len() - j,
    {
        assert(sv[j as int] == header@[j as int]@);
        let answer = match &header[j] {
            Tok::Group(Delimiter::Parenthesis, inner) => {
                let text = render_range(inner, 0, inner.len());
                assert(toks_view(inner@).subrange(0, inner@.len() as int) =~= toks_view(inner@));
                syn_type_parses(text.as_str())
            },
            _ => false,
        };
        out.push(answer);
        j = j + 1;
    }
    out
}

/// Why an erased type parameter `dyn(Repr) T` was refused, with the position
/// of the token concerned.
#[derive(Debug, Clone, Copy, PartialEq, Eq, Structural)]
pub enum ParamsError {
    DynWithoutRepr { at: usize },
    BadRepr { at: usize },
}

/// The message of an error.
pub open spec fn spec_params_message(e: ParamsError) -> Seq<char> {
    match e {
        ParamsError::DynWithoutRepr { .. } => "tagged-dispatch type parameters must use `dyn(TagTy) T`"@,
        ParamsError::BadRepr { .. } => "expected id repr in `dyn(TagTy) T`"@,
    }
}

impl ParamsError {
    /// The message of the error.
    pub fn message(&self) -> (s: String)
        ensures
            s@ == spec_params_message(*self),
    {
        match self {
            ParamsError::DynWithoutRepr { .. } => String::from_str(
                "tagged-dispatch type parameters must use `dyn(TagTy) T`",
            ),
            ParamsError::BadRepr { .. } => String::from_str("expected id repr in `dyn(TagTy) T`"),
        }
    }
}

/// The attribute `#[erased(repr)]`.
pub open spec fn erased_attr(repr: Seq<SpecTok>) -> Seq<SpecTok> {
    seq![
        SpecTok::Punct('#', false),
        SpecTok::Group(
            Delimiter::Bracket,
            seq![SpecTok::Ident("erased"@), SpecTok::Group(Delimiter::Parenthesis, repr)],
        ),
    ]
}

/// Rewriting the tokens from `i` on, given the tokens `out` written so far,
/// the depth of angle brackets, whether a generic parameter may start here,
/// and whether the parameter list `(...)` has been passed. Within the
/// generics, a parameter `dyn(Repr) T` becomes `#[erased(Repr)] T`.
pub open spec fn params_scan(
    s: Seq<SpecTok>,
    types: Seq<bool>,
    i: int,
    depth: int,
    start: bool,
    done: bool,
    out: Seq<SpecTok>,
) -> Result<Seq<SpecTok>, ParamsError>
    decreases s.len() - i,
{
    if i < 0 || i >= s.len() {
        Ok(out)
    } else {
        let t = s[i];
        if done {
            params_scan(s, types, i + 1, depth, start, done, out.push(t))
        } else if depth == 0 && t matches SpecTok::Group(Delimiter::Parenthesis, _) {
            params_scan(s, types, i + 1, depth, start, true, out.push(t))
        } else if punct_is(t, '<') {
            params_scan(s, types, i + 1, depth + 1, depth + 1 == 1, done, out.push(t))
        } else if punct_is(t, '>') {
            params_scan(s, types, i + 1, if depth > 0 {
                depth - 1
            } else {
                0
            }, false, done, out.push(t))
        } else if punct_is(t, ',') && depth == 1 {
            params_scan(s, types, i + 1, depth, true, done, out.push(t))
        } else if depth == 1 && start && ident_is(t, "dyn"@) {
            if i + 1 < s.len() && s[i + 1] matches SpecTok::Group(Delimiter::Parenthesis, _) {
                let repr = s[i + 1]->Group_1;
                if type_ok(types, i + 1) {
                    params_scan(s, types, i + 2, depth, true, done, out + erased_attr(repr))
                } else {
                    Err(ParamsError::BadRepr { at: (i + 1) as usize })
                }
            } else if i + 1 < s.len() && s[i + 1] is Group {
                Err(ParamsError::DynWithoutRepr { at: (i + 1) as usize })
            } else {
                Err(ParamsError::DynWithoutRepr { at: i as usize })
            }
        } else if depth == 1 && punct_is(t, '#') {
            params_scan(s, types, i + 1, depth, false, done, out.push(t))
        } else if depth == 1 && start && t is Ident {
            params_scan(s, types, i + 1, depth, false, done, out.push(t))
        } else {
            params_scan(s, types, i + 1, depth, start, done, out.push(t))
        }
    }
}

/// The value of the outcome of rewriting the erased type parameters.
pub open spec fn params_result_view(r: Result<Vec<Tok>, ParamsError>) -> Result<Seq<SpecTok>, ParamsError> {
    match r {
        Ok(v) => Ok(toks_view(v@)),
        Err(e) => Err(e),
    }
}

/// Rewrites the erased type parameters `dyn(Repr) T` of a declaration's
/// generics into `#[erased(Repr)] T`, asking `syn` whether each `Repr` is a
/// type (see `read_group_types`). Whatever `syn` answered, the outcome is
/// what `preprocess_dispatch_params_with` gives for some answers.
pub fn preprocess_dispatch_params(header: &Vec<Tok>) -> (r: Result<Vec<Tok>, ParamsError>)
    ensures
        exists|types: Seq<bool>| group_types_fit(toks_view(header@), types) && params_result_view(r) == #[trigger] params_scan(
            toks_view(header@),
            types,
            0,
            0,
            false,
            false,
            Seq::empty(),
        ),
{
    let types = read_group_types(header);
    let r = preprocess_dispatch_params_with(header, &types);
    assert(params_result_view(r) == params_scan(toks_view(header@), types@, 0, 0, false, false, Seq::empty()));
    r
}

/// Rewrites the erased type parameters `dyn(Repr) T` of a declaration's
/// generics into `#[erased(Repr)] T`, given what `syn` said of the groups
/// (`types[j]`: whether the group at `j` holds a type).
pub fn preprocess_dispatch_params_with(header: &Vec<Tok>, types: &Vec<bool>) -> (r: Result<Vec<Tok>, ParamsError>)
    ensures
        params_result_view(r) == params_scan(toks_view(header@), types@, 0, 0, false, false, Seq::empty()),
{
    let ghost sv = toks_view(header@);
    let mut out: Vec<Tok> = Vec::new();
    let mut depth: usize = 0;
    let mut start = false;
    let mut done = false;
    let mut i: usize = 0;
    assert(toks_view(out@) =~= Seq::<SpecTok>::empty());
    while i < header.len()
        invariant
            sv == toks_view(header@),
            i <= header@.len(),
            depth <= i,
            params_scan(sv, types@, 0, 0, false, false, Seq::empty()) == params_scan(
                sv,
                types@,
                i as int,
                depth as int,
                start,
                done,
                toks_view(out@),
            ),
        decreases header@.len() - i,
    {
        let t = &header[i];
        assert(sv[i as int] == t@);
        let ghost ov = toks_view(out@);
        let is_paren = match t {
            Tok::Group(Delimiter::Parenthesis, _) => true,
            _ => false,
        };
        let (is_lt, is_gt, is_comma, is_hash) = match t {
            Tok::Punct(c, _) => (*c == '<', *c == '>', *c == ',', *c == '#'),
            _ => (false, false, false, false),
        };
        let (is_ident, is_dyn) = match t {
            Tok::Ident(x) => (true, str_eq(x.as_str(), "dyn")),
            _ => (false, false),
        };
        if !done && !(depth == 0 && is_paren) && !is_lt && !is_gt && !(is_comma && depth == 1) && depth == 1
            && start && is_dyn {
            proof {
                reveal_strlit("dyn");
            }
            if i + 1 < header.len() {
                let g = &header[i + 1];
                assert(sv[i + 1] == g@);
                match g {
                    Tok::Group(Delimiter::Parenthesis, repr) => {
                        if !(i + 1 < types.len() && types[i + 1]) {
                            return Err(ParamsError::BadRepr { at: i + 1 });
                        }
                        out.push(Tok::Punct('#', false));
                        let mut inner: Vec<Tok> = Vec::new();
                        inner.push(Tok::Ident(String::from_str("erased")));
                        inner.push(Tok::Group(Delimiter::Parenthesis, crate::tokens::clone_toks(repr)));
                        proof {
                            reveal_strlit("erased");
                        }
                        assert(toks_view(inner@) =~= seq![
                            SpecTok::Ident("erased"@),
                            SpecTok::Group(Delimiter::Parenthesis, toks_view(repr@)),
                        ]);
                        let ghost ov1 = toks_view(out@);
                        assert(ov1 =~= ov.push(SpecTok::Punct('#', false)));
                        let ghost iv = toks_view(inner@);
                        out.push(Tok::Group(Delimiter::Bracket, inner));
                        assert(toks_view(out@) =~= ov1.push(SpecTok::Group(Delimiter::Bracket, iv)));
                        assert(toks_view(out@) =~= ov + erased_attr(toks_view(repr@)));
                        start = true;
                        i = i + 2;
                    },
                    Tok::Group(_, _) => {
                        return Err(ParamsError::DynWithoutRepr { at: i + 1 });
                    },
                    _ => {
                        return Err(ParamsError::DynWithoutRepr { at: i });
                    },
                }
            } else {
                return Err(ParamsError::DynWithoutRepr { at: i });
            }
        } else {
            if done {
            } else if depth == 0 && is_paren {
                done = true;
            } else if is_lt {
                depth = depth + 1;
                start = depth == 1;
            } else if is_gt {
                if depth > 0 {
                    depth = depth - 1;
                }
                start = false;
            } else if is_comma && depth == 1 {
                start = true;
            } else if depth == 1 && is_hash {
                start = false;
            } else if depth == 1 && start && is_ident {
                start = false;
            }
            out.push(crate::tokens::clone_tok(t));
            assert(toks_view(out@) =~= ov.push(sv[i as int]));
            i = i + 1;
        }
    }
    Ok(out)
}

// ---------------------------------------------------------------------------
// `move fn`.

/// The tokens of a signature with `move` dropped before `fn`, with whether
/// it was there, and the position (among the tokens given) of the parameter
/// list: the first parenthesized group after `fn` outside angle brackets.
pub struct SignatureScan {
    pub tokens: Vec<Tok>,
    pub by_val: bool,
    pub inputs: Option<usize>,
}

/// Reading the signature's tokens from `i` on, given the tokens kept so far,
/// whether `fn` and the parameter list were seen, whether `move fn` was
/// seen, and the depth of angle brackets: `Err` with the position of a
/// second `move fn`.
pub open spec fn sig_scan(
    s: Seq<SpecTok>,
    i: int,
    saw_fn: bool,
    inputs: Option<int>,
    by_val: bool,
    depth: int,
    out: Seq<SpecTok>,
) -> Result<(Seq<SpecTok>, bool, Option<int>), int>
    decreases s.len() - i,
{
    if i < 0 || i >= s.len() {
        Ok((out, by_val, inputs))
    } else {
        let t = s[i];
        if !saw_fn && ident_is(t, "move"@) && i + 1 < s.len() && ident_is(s[i + 1], "fn"@) {
            if by_val {
                Err(i)
            } else {
                sig_scan(s, i + 1, saw_fn, inputs, true, depth, out)
            }
        } else {
            let saw_fn2 = saw_fn || ident_is(t, "fn"@);
            let depth2 = if punct_is(t, '<') {
                depth + 1
            } else if punct_is(t, '>') {
                if depth > 0 {
                    depth - 1
                } else {
                    0
                }
            } else {
                depth
            };
            let is_inputs = t matches SpecTok::Group(Delimiter::Parenthesis, _) && saw_fn2 && depth2 == 0
                && inputs is None;
            sig_scan(
                s,
                i + 1,
                saw_fn2,
                if is_inputs {
                    Some(out.len() as int)
                } else {
                    inputs
                },
                by_val,
                depth2,
                out.push(t),
            )
        }
    }
}

/// The message for a second `move fn` in a signature.
pub fn duplicate_move_fn_message() -> (s: String)
    ensures
        s@ == "duplicate `move fn`"@,
{
    String::from_str("duplicate `move fn`")
}

/// Reads the tokens of a signature: drops a `move` before `fn`, and finds
/// the parameter list. On a second `move fn`, gives its position.
pub fn scan_signature_tokens(tokens: &Vec<Tok>) -> (r: Result<SignatureScan, usize>)
    ensures
        match r {
            Ok(scan) => sig_scan(toks_view(tokens@), 0, false, None, false, 0, Seq::empty()) == Ok::<
                (Seq<SpecTok>, bool, Option<int>),
                int,
            >((toks_view(scan.tokens@), scan.by_val, match scan.inputs {
                Some(k) => Some(k as int),
                None => None,
            })),
            Err(i) => sig_scan(toks_view(tokens@), 0, false, None, false, 0, Seq::empty()) == Err::<
                (Seq<SpecTok>, bool, Option<int>),
                int,
            >(i as int),
        },
{
    let ghost sv = toks_view(tokens@);
    let mut out: Vec<Tok> = Vec::new();
    let mut saw_fn = false;
    let mut inputs: Option<usize> = None;
    let mut by_val = false;
    let mut depth: usize = 0;
    let mut i: usize = 0;
    assert(toks_view(out@) =~= Seq::<SpecTok>::empty());
    proof {
        reveal_strlit("move");
        reveal_strlit("fn");
    }
    while i < tokens.len()
        invariant
            sv == toks_view(tokens@),
            i <= tokens@.len(),
            depth <= i,
            out@.len() <= i,
            sig_scan(sv, 0, false, None, false, 0, Seq::empty()) == sig_scan(
                sv,
                i as int,
                saw_fn,
                match inputs {
                    Some(k) => Some(k as int),
                    None => None,
                },
                by_val,
                depth as int,
                toks_view(out@),
            ),
        decreases tokens@.len() - i,
    {
        let t = &tokens[i];
        assert(sv[i as int] == t@);
        let is_move = match t {
            Tok::Ident(x) => str_eq(x.as_str(), "move"),
            _ => false,
        };
        let next_fn = i + 1 < tokens.len() && match &tokens[i + 1] {
            Tok::Ident(x) => str_eq(x.as_str(), "fn"),
            _ => false,
        };
        proof {
            if i + 1 < tokens@.len() {
                assert(sv[i + 1] == tokens@[i + 1]@);
            }
        }
        if !saw_fn && is_move && next_fn {
            if by_val {
                return Err(i);
            }
            by_val = true;
            i = i + 1;
        } else {
            let is_fn = match t {
                Tok::Ident(x) => str_eq(x.as_str(), "fn"),
                _ => false,
            };
            if is_fn {
                saw_fn = true;
            }
            match t {
                Tok::Punct(c, _) => {
                    if *c == '<' {
                        depth = depth + 1;
                    } else if *c == '>' {
                        if depth > 0 {
                            depth = depth - 1;
                        }
                    }
                },
                _ => {},
            }
            let is_paren = match t {
                Tok::Group(Delimiter::Parenthesis, _) => true,
                _ => false,
            };
            if is_paren && saw_fn && depth == 0 && inputs.is_none() {
                inputs = Some(out.len());
            }
            let ghost ov = toks_view(out@);
            out.push(crate::tokens::clone_tok(t));
            assert(toks_view(out@) =~= ov.push(sv[i as int]));
            i = i + 1;
        }
    }
    Ok(SignatureScan { tokens: out, by_val, inputs })
}

// ---------------------------------------------------------------------------
// Looking ahead at an item's tokens.

/// Whether, from token `i` up to the first `;` among the item's tokens, a
/// `@` follows a `where` (`in_where` once one has been seen).
pub open spec fn spec_dispatch_scan(s: Seq<SpecTok>, i: int, in_where: bool) -> bool
    decreases s.len() - i,
{
    if i < 0 || i >= s.len() || punct_is(s[i], ';') {
        false
    } else if ident_is(s[i], "where"@) {
        spec_dispatch_scan(s, i + 1, true)
    } else if in_where && punct_is(s[i], '@') {
        true
    } else {
        spec_dispatch_scan(s, i + 1, in_where)
    }
}

/// Whether the item's where clause holds a tagged-dispatch predicate: a `@`
/// after `where`, before the `;` that ends the item (groups are single
/// tokens, so only the item's own level counts).
pub fn contains_dispatch_predicate(toks: &Vec<Tok>) -> (r: bool)
    ensures
        r == spec_dispatch_scan(toks_view(toks@), 0, false),
{
    let ghost sv = toks_view(toks@);
    let mut in_where = false;
    let mut i: usize = 0;
    proof {
        reveal_strlit("where");
    }
    while i < toks.len()
        invariant
            sv == toks_view(toks@),
            i <= toks@.len(),
            spec_dispatch_scan(sv, 0, false) == spec_dispatch_scan(sv, i as int, in_where),
        decreases toks@.len() - i,
    {
        assert(sv[i as int] == toks@[i as int]@);
        match &toks[i] {
            Tok::Punct(';', _) => {
                return false;
            },
            Tok::Ident(x) => {
                if str_eq(x.as_str(), "where") {
                    in_where = true;
                }
            },
            Tok::Punct('@', _) => {
                if in_where {
                    return true;
                }
            },
            _ => {},
        }
        i = i + 1;
    }
    false
}

/// Whether the token is a string literal (plain or raw), as an ABI name is.
pub open spec fn is_str_literal(t: SpecTok) -> bool {
    match t {
        SpecTok::Literal(x) => x.len() > 0 && (x[0] == '"' || (x[0] == 'r' && x.len() > 1 && (x[1] == '"'
            || x[1] == '#'))),
        _ => false,
    }
}

/// The position after an optional identifier `name` at `i`.
pub open spec fn skip_ident(s: Seq<SpecTok>, i: int, name: Seq<char>) -> int {
    if 0 <= i < s.len() && ident_is(s[i], name) {
        i + 1
    } else {
        i
    }
}

/// The position after an optional ABI `extern "..."` at `i`.
pub open spec fn skip_abi(s: Seq<SpecTok>, i: int) -> int {
    if 0 <= i < s.len() && ident_is(s[i], "extern"@) {
        if i + 1 < s.len() && is_str_literal(s[i + 1]) {
            i + 2
        } else {
            i + 1
        }
    } else {
        i
    }
}

/// Whether the tokens from `i` begin a function: optional `const`, `async`,
/// `unsafe`, ABI and `move`, in that order, then `fn`.
pub open spec fn spec_is_fn_head(s: Seq<SpecTok>, i: int) -> bool {
    let j = skip_ident(
        s,
        skip_abi(s, skip_ident(s, skip_ident(s, skip_ident(s, i, "const"@), "async"@), "unsafe"@)),
        "move"@,
    );
    0 <= j < s.len() && ident_is(s[j], "fn"@)
}

/// The position after an optional identifier `name` at `i`.
fn skip_ident_exec(toks: &Vec<Tok>, i: usize, name: &str) -> (r: usize)
    requires
        i <= toks@.len(),
    ensures
        r == skip_ident(toks_view(toks@), i as int, name@),
        r <= toks@.len(),
{
    if i < toks.len() {
        assert(toks_view(toks@)[i as int] == toks@[i as int]@);
        if let Tok::Ident(x) = &toks[i] {
            if str_eq(x.as_str(), name) {
                return i + 1;
            }
        }
    }
    i
}

/// Whether the literal text is a string literal.
fn str_literal_text(x: &str) -> (r: bool)
    ensures
        r == (x@.len() > 0 && (x@[0] == '"' || (x@[0] == 'r' && x@.len() > 1 && (x@[1] == '"' || x@[1]
            == '#')))),
{
    let v = crate::text::chars_of(x);
    if v.len() == 0 {
        return false;
    }
    if v[0] == '"' {
        return true;
    }
    v[0] == 'r' && v.len() > 1 && (v[1] == '"' || v[1] == '#')
}

/// Whether the tokens from `i` begin a function: optional `const`, `async`,
/// `unsafe`, ABI and `move`, in that order, then `fn`.
pub fn is_fn_head(toks: &Vec<Tok>, i: usize) -> (r: bool)
    requires
        i <= toks@.len(),
    ensures
        r == spec_is_fn_head(toks_view(toks@), i as int),
{
    let ghost sv = toks_view(toks@);
    proof {
        reveal_strlit("extern");
    }
    let i1 = skip_ident_exec(toks, i, "const");
    let i2 = skip_ident_exec(toks, i1, "async");
    let i3 = skip_ident_exec(toks, i2, "unsafe");
    let mut i4 = i3;
    if i3 < toks.len() {
        assert(sv[i3 as int] == toks@[i3 as int]@);
        if let Tok::Ident(x) = &toks[i3] {
            if str_eq(x.as_str(), "extern") {
                i4 = i3 + 1;
                if i3 + 1 < toks.len() {
                    assert(sv[i3 + 1] == toks@[i3 + 1]@);
                    if let Tok::Literal(l) = &toks[i3 + 1] {
                        if str_literal_text(l.as_str()) {
                            i4 = i3 + 2;
                        }
                    }
                }
            }
        }
    }
    assert(i4 == skip_abi(sv, i3 as int));
    let i5 = skip_ident_exec(toks, i4, "move");
    if i5 < toks.len() {
        assert(sv[i5 as int] == toks@[i5 as int]@);
        if let Tok::Ident(x) = &toks[i5] {
            return str_eq(x.as_str(), "fn");
        }
    }
    false
}

} // verus!
