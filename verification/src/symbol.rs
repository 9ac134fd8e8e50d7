//! Symbol names: the components that are derived from Rust names, and the
//! rules that symbol text must follow.
use vstd::prelude::*;
use crate::types::{GenericArg, PathArgs, Ty, TyPath};
use crate::text::{
    ascii_alnum, ascii_alpha, chars_of, is_ascii_alnum, is_ascii_alpha, is_symbol_char, push_chars,
    push_str, string_of,
};

verus! {

/// Replaces every run of characters that may not stand in a symbol by one `_`,
/// from `i` on, appending to `out`; `prev_us` says whether `out` ends in `_`.
pub open spec fn spec_sanitize_fold(input: Seq<char>, i: int, out: Seq<char>, prev_us: bool) -> Seq<
    char,
>
    decreases input.len() - i,
{
    if i < 0 || i >= input.len() {
        out
    } else {
        let c = input[i];
        if is_symbol_char(c) {
            spec_sanitize_fold(input, i + 1, out.push(c), c == '_')
        } else if !prev_us {
            spec_sanitize_fold(input, i + 1, out.push('_'), true)
        } else {
            spec_sanitize_fold(input, i + 1, out, prev_us)
        }
    }
}

/// The text without its leading underscores.
pub open spec fn spec_strip_leading(s: Seq<char>) -> Seq<char>
    decreases s.len(),
{
    if s.len() > 0 && s[0] == '_' {
        spec_strip_leading(s.drop_first())
    } else {
        s
    }
}

/// The text without its trailing underscores.
pub open spec fn spec_strip_trailing(s: Seq<char>) -> Seq<char>
    decreases s.len(),
{
    if s.len() > 0 && s.last() == '_' {
        spec_strip_trailing(s.drop_last())
    } else {
        s
    }
}

/// A symbol component made from arbitrary text: runs of characters that may
/// not stand in a symbol become one `_`, underscores at either end are
/// dropped, and what is left empty becomes `ty`.
pub open spec fn spec_sanitize(input: Seq<char>) -> Seq<char> {
    let t = spec_strip_trailing(spec_strip_leading(spec_sanitize_fold(input, 0, Seq::empty(), false)));
    if t.len() == 0 {
        "ty"@
    } else {
        t
    }
}

/// Makes a symbol component from arbitrary text.
pub fn sanitize_symbol_component(input: &str) -> (r: String)
    ensures
        r@ == spec_sanitize(input@),
{
    let chars = chars_of(input);
    let v = sanitize_chars(&chars);
    string_of(&v)
}

/// Makes a symbol component from characters.
pub fn sanitize_chars(input: &Vec<char>) -> (r: Vec<char>)
    ensures
        r@ == spec_sanitize(input@),
{
    let mut out: Vec<char> = Vec::new();
    let mut prev_us = false;
    let mut i: usize = 0;
    while i < input.len()
        invariant
            i <= input.len(),
            spec_sanitize_fold(input@, i as int, out@, prev_us) == spec_sanitize_fold(
                input@,
                0,
                Seq::empty(),
                false,
            ),
        decreases input.len() - i,
    {
        let c = input[i];
        let keep = ascii_alnum(c) || c == '_';
        if keep {
            out.push(c);
            prev_us = c == '_';
        } else if !prev_us {
            out.push('_');
            prev_us = true;
        }
        i = i + 1;
    }
    let ghost folded = out@;
    let n = out.len();
    let mut start: usize = 0;
    assert(folded.subrange(0, n as int) =~= folded);
    while start < n && out[start] == '_'
        invariant
            start <= n,
            n == out@.len(),
            out@ == folded,
            spec_strip_leading(folded.subrange(start as int, n as int)) == spec_strip_leading(folded),
        decreases n - start,
    {
        assert(folded.subrange(start as int, n as int).drop_first() =~= folded.subrange(
            start as int + 1,
            n as int,
        ));
        start = start + 1;
    }
    assert(folded.subrange(0, n as int) =~= folded);
    let ghost lead = folded.subrange(start as int, n as int);
    assert(spec_strip_leading(lead) == lead);
    let mut end: usize = n;
    while end > start && out[end - 1] == '_'
        invariant
            start <= end <= n,
            n == out@.len(),
            out@ == folded,
            lead == folded.subrange(start as int, n as int),
            spec_strip_trailing(folded.subrange(start as int, end as int)) == spec_strip_trailing(
                lead,
            ),
        decreases end - start,
    {
        assert(folded.subrange(start as int, end as int).drop_last() =~= folded.subrange(
            start as int,
            end as int - 1,
        ));
        end = end - 1;
    }
    assert(folded.subrange(start as int, n as int) =~= lead);
    let mut r: Vec<char> = Vec::new();
    if end == start {
        r.push('t');
        r.push('y');
        proof {
            reveal_strlit("ty");
            assert(r@ =~= "ty"@);
        }
    } else {
        let mut k = start;
        while k < end
            invariant
                start <= k <= end <= n,
                n == out@.len(),
                out@ == folded,
                r@ == folded.subrange(start as int, k as int),
            decreases end - k,
        {
            r.push(out[k]);
            k = k + 1;
            assert(r@ =~= folded.subrange(start as int, k as int));
        }
    }
    r
}

/// Every character that sanitizing writes may stand in a symbol.
proof fn lemma_fold_symbol_chars(input: Seq<char>, i: int, out: Seq<char>, prev_us: bool)
    requires
        forall|k: int| 0 <= k < out.len() ==> is_symbol_char(#[trigger] out[k]),
    ensures
        forall|k: int|
            0 <= k < spec_sanitize_fold(input, i, out, prev_us).len() ==> is_symbol_char(
                #[trigger] spec_sanitize_fold(input, i, out, prev_us)[k],
            ),
    decreases input.len() - i,
{
    if i < 0 || i >= input.len() {
    } else {
        let c = input[i];
        if is_symbol_char(c) {
            assert forall|k: int| 0 <= k < out.push(c).len() implies is_symbol_char(
                #[trigger] out.push(c)[k],
            ) by {
                if k < out.len() {
                    assert(out.push(c)[k] == out[k]);
                }
            }
            lemma_fold_symbol_chars(input, i + 1, out.push(c), c == '_');
            assert(spec_sanitize_fold(input, i, out, prev_us) == spec_sanitize_fold(
                input,
                i + 1,
                out.push(c),
                c == '_',
            ));
        } else if !prev_us {
            assert forall|k: int| 0 <= k < out.push('_').len() implies is_symbol_char(
                #[trigger] out.push('_')[k],
            ) by {
                if k < out.len() {
                    assert(out.push('_')[k] == out[k]);
                }
            }
            lemma_fold_symbol_chars(input, i + 1, out.push('_'), true);
            assert(spec_sanitize_fold(input, i, out, prev_us) == spec_sanitize_fold(
                input,
                i + 1,
                out.push('_'),
                true,
            ));
        } else {
            lemma_fold_symbol_chars(input, i + 1, out, prev_us);
            assert(spec_sanitize_fold(input, i, out, prev_us) == spec_sanitize_fold(
                input,
                i + 1,
                out,
                prev_us,
            ));
        }
    }
}

/// Sanitizing text made only of symbol characters appends it unchanged.
proof fn lemma_fold_keeps(input: Seq<char>, i: int, out: Seq<char>, prev_us: bool)
    requires
        0 <= i <= input.len(),
        forall|k: int| 0 <= k < input.len() ==> is_symbol_char(#[trigger] input[k]),
    ensures
        spec_sanitize_fold(input, i, out, prev_us) == out + input.subrange(i, input.len() as int),
    decreases input.len() - i,
{
    if i >= input.len() {
        assert(input.subrange(i, input.len() as int) =~= Seq::<char>::empty());
        assert(out + Seq::<char>::empty() =~= out);
    } else {
        let c = input[i];
        lemma_fold_keeps(input, i + 1, out.push(c), c == '_');
        assert(out.push(c) + input.subrange(i + 1, input.len() as int) =~= out + input.subrange(
            i,
            input.len() as int,
        ));
    }
}

/// Stripping leading underscores leaves a suffix that does not start with one.
proof fn lemma_strip_leading(s: Seq<char>)
    ensures
        spec_strip_leading(s).len() <= s.len(),
        spec_strip_leading(s) == s.subrange(s.len() - spec_strip_leading(s).len(), s.len() as int),
        spec_strip_leading(s).len() == 0 || spec_strip_leading(s)[0] != '_',
        (s.len() == 0 || s[0] != '_') ==> spec_strip_leading(s) == s,
    decreases s.len(),
{
    if s.len() > 0 && s[0] == '_' {
        lemma_strip_leading(s.drop_first());
        let r = spec_strip_leading(s.drop_first());
        assert(s.drop_first().subrange(s.len() - 1 - r.len(), s.len() - 1) =~= s.subrange(
            s.len() - r.len(),
            s.len() as int,
        ));
    } else {
        assert(s.subrange(0, s.len() as int) =~= s);
    }
}

/// Stripping trailing underscores leaves a prefix that does not end with one.
proof fn lemma_strip_trailing(s: Seq<char>)
    ensures
        spec_strip_trailing(s).len() <= s.len(),
        spec_strip_trailing(s) == s.subrange(0, spec_strip_trailing(s).len() as int),
        spec_strip_trailing(s).len() == 0 || spec_strip_trailing(s).last() != '_',
        (s.len() == 0 || s.last() != '_') ==> spec_strip_trailing(s) == s,
    decreases s.len(),
{
    if s.len() > 0 && s.last() == '_' {
        lemma_strip_trailing(s.drop_last());
        let r = spec_strip_trailing(s.drop_last());
        assert(s.drop_last().subrange(0, r.len() as int) =~= s.subrange(0, r.len() as int));
    } else {
        assert(s.subrange(0, s.len() as int) =~= s);
    }
}

/// Whether `s` is a well-formed symbol component: not empty, made of ASCII
/// letters, digits and `_`, and neither starting nor ending with `_`.
pub open spec fn is_clean_component(s: Seq<char>) -> bool {
    &&& s.len() > 0
    &&& forall|k: int| 0 <= k < s.len() ==> is_symbol_char(#[trigger] s[k])
    &&& s[0] != '_'
    &&& s.last() != '_'
}

/// Sanitizing always gives a well-formed component.
pub proof fn lemma_sanitize_clean(input: Seq<char>)
    ensures
        is_clean_component(spec_sanitize(input)),
{
    let f = spec_sanitize_fold(input, 0, Seq::empty(), false);
    lemma_fold_symbol_chars(input, 0, Seq::empty(), false);
    lemma_strip_leading(f);
    let l = spec_strip_leading(f);
    lemma_strip_trailing(l);
    let t = spec_strip_trailing(l);
    if t.len() == 0 {
        reveal_strlit("ty");
    } else {
        assert forall|k: int| 0 <= k < t.len() implies is_symbol_char(#[trigger] t[k]) by {
            assert(t[k] == l[k]);
            assert(l[k] == f[f.len() - l.len() + k]);
        }
        assert(t[0] == l[0]);
    }
}

/// Sanitizing a sanitized component changes nothing.
pub proof fn lemma_sanitize_idempotent(input: Seq<char>)
    ensures
        spec_sanitize(spec_sanitize(input)) == spec_sanitize(input),
{
    let s = spec_sanitize(input);
    lemma_sanitize_clean(input);
    lemma_fold_keeps(s, 0, Seq::empty(), false);
    assert(Seq::<char>::empty() + s.subrange(0, s.len() as int) =~= s);
    lemma_strip_leading(s);
    lemma_strip_trailing(s);
}


/// Sanitizing a well-formed component gives it back unchanged.
pub proof fn lemma_sanitize_keeps_clean(input: Seq<char>)
    requires
        is_clean_component(input),
    ensures
        spec_sanitize(input) == input,
{
    lemma_fold_keeps(input, 0, Seq::empty(), false);
    assert(Seq::<char>::empty() + input.subrange(0, input.len() as int) =~= input);
    lemma_strip_leading(input);
    lemma_strip_trailing(input);
}

/// The ASCII letters and digits of the text, in order.
pub open spec fn spec_alnums(s: Seq<char>) -> Seq<char>
    decreases s.len(),
{
    if s.len() == 0 {
        Seq::empty()
    } else if is_ascii_alnum(s.last()) {
        spec_alnums(s.drop_last()).push(s.last())
    } else {
        spec_alnums(s.drop_last())
    }
}

proof fn lemma_alnums_concat(a: Seq<char>, b: Seq<char>)
    ensures
        spec_alnums(a + b) == spec_alnums(a) + spec_alnums(b),
    decreases b.len(),
{
    if b.len() == 0 {
        assert(a + b =~= a);
        assert(spec_alnums(a) + spec_alnums(b) =~= spec_alnums(a));
    } else {
        lemma_alnums_concat(a, b.drop_last());
        assert((a + b).drop_last() =~= a + b.drop_last());
        assert((a + b).last() == b.last());
        if is_ascii_alnum(b.last()) {
            assert(spec_alnums(a) + spec_alnums(b) =~= (spec_alnums(a) + spec_alnums(b.drop_last())).push(b.last()));
        } else {
            assert(spec_alnums(a) + spec_alnums(b) =~= spec_alnums(a) + spec_alnums(b.drop_last()));
        }
    }
}

proof fn lemma_alnums_one(c: char)
    ensures
        spec_alnums(seq![c]) == (if is_ascii_alnum(c) { seq![c] } else { Seq::<char>::empty() }),
{
    let s = seq![c];
    assert(s.drop_last() =~= Seq::<char>::empty());
    assert(s.last() == c);
    assert(spec_alnums(Seq::<char>::empty()) == Seq::<char>::empty());
    assert(Seq::<char>::empty().push(c) =~= s);
    if is_ascii_alnum(c) {
        assert(spec_alnums(s) == spec_alnums(s.drop_last()).push(c));
    } else {
        assert(spec_alnums(s) == spec_alnums(s.drop_last()));
    }
}

proof fn lemma_alnums_fold(input: Seq<char>, i: int, out: Seq<char>, prev_us: bool)
    requires
        0 <= i <= input.len(),
    ensures
        spec_alnums(spec_sanitize_fold(input, i, out, prev_us)) == spec_alnums(out) + spec_alnums(
            input.subrange(i, input.len() as int),
        ),
    decreases input.len() - i,
{
    let rest = input.subrange(i, input.len() as int);
    if i >= input.len() {
        assert(rest =~= Seq::<char>::empty());
        assert(spec_alnums(out) + spec_alnums(rest) =~= spec_alnums(out));
    } else {
        let c = input[i];
        let tail = input.subrange(i + 1, input.len() as int);
        assert(rest =~= seq![c] + tail);
        lemma_alnums_concat(seq![c], tail);
        lemma_alnums_one(c);
        lemma_alnums_concat(out, seq![c]);
        lemma_alnums_concat(out, seq!['_']);
        lemma_alnums_one('_');
        assert(out.push(c) =~= out + seq![c]);
        assert(out.push('_') =~= out + seq!['_']);
        if is_symbol_char(c) {
            lemma_alnums_fold(input, i + 1, out.push(c), c == '_');
        } else if !prev_us {
            lemma_alnums_fold(input, i + 1, out.push('_'), true);
        } else {
            lemma_alnums_fold(input, i + 1, out, prev_us);
        }
        assert(spec_alnums(out) + spec_alnums(rest) =~= if is_ascii_alnum(c) {
            spec_alnums(out).push(c) + spec_alnums(tail)
        } else {
            spec_alnums(out) + spec_alnums(tail)
        });
        if is_ascii_alnum(c) {
            assert(spec_alnums(out).push(c) + spec_alnums(tail) =~= spec_alnums(out) + seq![c] + spec_alnums(tail));
        } else {
            assert(spec_alnums(out) + Seq::<char>::empty() =~= spec_alnums(out));
        }
    }
}

proof fn lemma_alnums_strip_leading(s: Seq<char>)
    ensures
        spec_alnums(spec_strip_leading(s)) == spec_alnums(s),
    decreases s.len(),
{
    if s.len() > 0 && s[0] == '_' {
        lemma_alnums_strip_leading(s.drop_first());
        assert(s =~= seq![s[0]] + s.drop_first());
        lemma_alnums_concat(seq![s[0]], s.drop_first());
        lemma_alnums_one('_');
        assert(Seq::<char>::empty() + spec_alnums(s.drop_first()) =~= spec_alnums(s.drop_first()));
    }
}

proof fn lemma_alnums_strip_trailing(s: Seq<char>)
    ensures
        spec_alnums(spec_strip_trailing(s)) == spec_alnums(s),
    decreases s.len(),
{
    if s.len() > 0 && s.last() == '_' {
        lemma_alnums_strip_trailing(s.drop_last());
    }
}

/// Sanitizing keeps the ASCII letters and digits of the input, in order, and
/// nothing else but underscores; where the input has none, the component is
/// `ty`.
pub proof fn lemma_sanitize_keeps_alnums(input: Seq<char>)
    ensures
        spec_alnums(input).len() == 0 ==> spec_sanitize(input) == "ty"@,
        spec_alnums(input).len() > 0 ==> spec_alnums(spec_sanitize(input)) == spec_alnums(input),
{
    let f = spec_sanitize_fold(input, 0, Seq::empty(), false);
    lemma_alnums_fold(input, 0, Seq::empty(), false);
    assert(input.subrange(0, input.len() as int) =~= input);
    assert(spec_alnums(Seq::<char>::empty()) + spec_alnums(input) =~= spec_alnums(input));
    let l = spec_strip_leading(f);
    let t = spec_strip_trailing(l);
    lemma_alnums_strip_leading(f);
    lemma_alnums_strip_trailing(l);
    assert(spec_alnums(t) == spec_alnums(input));
    lemma_fold_symbol_chars(input, 0, Seq::empty(), false);
    lemma_strip_leading(f);
    lemma_strip_trailing(l);
    if t.len() > 0 {
        assert(t[0] == l[0]);
        assert(l[0] == f[f.len() - l.len()]);
        assert(is_symbol_char(t[0]) && t[0] != '_');
        assert(t =~= seq![t[0]] + t.drop_first());
        lemma_alnums_concat(seq![t[0]], t.drop_first());
        lemma_alnums_one(t[0]);
        assert(spec_alnums(t).len() > 0);
    } else {
        assert(t =~= Seq::<char>::empty());
        assert(spec_alnums(t).len() == 0);
    }
}

} // verus!

verus! {

/// Why a symbol text is refused.
#[derive(Debug, Clone, Copy, PartialEq, Eq, Structural)]
pub enum SymbolTextError {
    Empty,
    BadInterpolation,
    ReservedBrace,
    InvalidCharacter,
}

impl SymbolTextError {
    /// The message that reports the error.
    pub fn message(&self) -> (s: &'static str)
        ensures
            s@ == spec_symbol_error_message(*self),
    {
        match self {
            SymbolTextError::Empty => "symbol names cannot be empty",
            SymbolTextError::BadInterpolation => "symbol interpolation must use `{Ident}`",
            SymbolTextError::ReservedBrace => "`{` and `}` are reserved for symbol interpolation",
            SymbolTextError::InvalidCharacter => "symbol names may contain only ASCII letters, digits, and `_`",
        }
    }
}

/// The message of each symbol text error.
pub open spec fn spec_symbol_error_message(e: SymbolTextError) -> Seq<char> {
    match e {
        SymbolTextError::Empty => "symbol names cannot be empty"@,
        SymbolTextError::BadInterpolation => "symbol interpolation must use `{Ident}`"@,
        SymbolTextError::ReservedBrace => "`{` and `}` are reserved for symbol interpolation"@,
        SymbolTextError::InvalidCharacter => "symbol names may contain only ASCII letters, digits, and `_`"@,
    }
}

/// Whether the text is an ASCII identifier: a letter or `_`, then letters,
/// digits and `_`.
pub open spec fn is_ident_text(name: Seq<char>) -> bool {
    &&& name.len() > 0
    &&& (name[0] == '_' || is_ascii_alpha(name[0]))
    &&& forall|k: int| 1 <= k < name.len() ==> is_symbol_char(#[trigger] name[k])
}

/// The index of the first `}` at or after `j`, or -1.
pub open spec fn spec_find_close(t: Seq<char>, j: int) -> int
    decreases t.len() - j,
{
    if j < 0 || j >= t.len() {
        -1
    } else if t[j] == '}' {
        j
    } else {
        spec_find_close(t, j + 1)
    }
}

/// A `}` found at or after `j` is at or after `j`.
pub proof fn lemma_find_close(t: Seq<char>, j: int)
    ensures
        spec_find_close(t, j) == -1 || (j <= spec_find_close(t, j) < t.len() && t[spec_find_close(
            t,
            j,
        )] == '}'),
        spec_find_close(t, j) != -1 ==> forall|m: int|
            j <= m < spec_find_close(t, j) ==> #[trigger] t[m] != '}',
        spec_find_close(t, j) == -1 && 0 <= j ==> forall|m: int|
            j <= m < t.len() ==> #[trigger] t[m] != '}',
    decreases t.len() - j,
{
    if j < 0 || j >= t.len() {
    } else if t[j] == '}' {
    } else {
        lemma_find_close(t, j + 1);
    }
}

/// Checks the symbol text from `i` on: with interpolation, `{Ident}` stands
/// for a fragment; otherwise only ASCII letters, digits and `_` may appear.
pub open spec fn spec_validate_from(t: Seq<char>, i: int, interpolation: bool) -> Result<
    (),
    SymbolTextError,
>
    decreases t.len() - i,
{
    if i < 0 || i >= t.len() {
        Ok(())
    } else {
        let c = t[i];
        if interpolation && c == '{' {
            let j = spec_find_close(t, i + 1);
            proof {
                lemma_find_close(t, i + 1);
            }
            if j < 0 || !is_ident_text(t.subrange(i + 1, j)) {
                Err(SymbolTextError::BadInterpolation)
            } else {
                spec_validate_from(t, j + 1, interpolation)
            }
        } else if c == '{' || c == '}' {
            Err(SymbolTextError::ReservedBrace)
        } else if !is_symbol_char(c) {
            Err(SymbolTextError::InvalidCharacter)
        } else {
            spec_validate_from(t, i + 1, interpolation)
        }
    }
}

/// Checks a symbol text: it may not be empty, and is then checked from its start.
pub open spec fn spec_validate_symbol(t: Seq<char>, interpolation: bool) -> Result<(), SymbolTextError> {
    if t.len() == 0 {
        Err(SymbolTextError::Empty)
    } else {
        spec_validate_from(t, 0, interpolation)
    }
}

proof fn lemma_validate_plain_from(t: Seq<char>, i: int)
    requires
        0 <= i <= t.len(),
    ensures
        spec_validate_from(t, i, false) is Ok <==> (forall|k: int| i <= k < t.len() ==> is_symbol_char(#[trigger] t[k])),
    decreases t.len() - i,
{
    if i < t.len() {
        lemma_validate_plain_from(t, i + 1);
        if is_symbol_char(t[i]) {
            assert forall|k: int| i <= k < t.len() && (forall|m: int| i + 1 <= m < t.len() ==> is_symbol_char(#[trigger] t[m])) implies is_symbol_char(#[trigger] t[k]) by {
                if k > i {
                    assert(is_symbol_char(t[k]));
                }
            }
        }
    }
}

/// Without interpolation, symbol text is accepted exactly when it is not
/// empty and made only of ASCII letters, digits and `_`.
pub proof fn lemma_validate_plain_text(t: Seq<char>)
    ensures
        spec_validate_symbol(t, false) is Ok <==> (t.len() > 0 && forall|k: int|
            0 <= k < t.len() ==> is_symbol_char(#[trigger] t[k])),
{
    lemma_validate_plain_from(t, 0);
}

proof fn lemma_validate_interp_from(t: Seq<char>, i: int)
    requires
        0 <= i <= t.len(),
        spec_validate_from(t, i, true) is Ok,
    ensures
        forall|k: int| i <= k < t.len() ==> is_symbol_char(#[trigger] t[k]) || t[k] == '{' || t[k] == '}',
    decreases t.len() - i,
{
    if i < t.len() {
        if t[i] == '{' {
            let j = spec_find_close(t, i + 1);
            lemma_find_close(t, i + 1);
            lemma_validate_interp_from(t, j + 1);
            assert forall|k: int| i <= k < t.len() implies is_symbol_char(#[trigger] t[k]) || t[k] == '{' || t[k] == '}' by {
                if i < k < j {
                    let name = t.subrange(i + 1, j);
                    assert(name[k - i - 1] == t[k]);
                    if k - i - 1 == 0 {
                        assert(name[0] == '_' || is_ascii_alpha(name[0]));
                    } else {
                        assert(is_symbol_char(name[k - i - 1]));
                    }
                }
            }
        } else {
            lemma_validate_interp_from(t, i + 1);
        }
    }
}

/// With interpolation, accepted symbol text is not empty and holds only
/// ASCII letters, digits, `_` and the braces of `{Ident}` groups.
pub proof fn lemma_validate_interpolated_text(t: Seq<char>)
    requires
        spec_validate_symbol(t, true) is Ok,
    ensures
        t.len() > 0,
        forall|k: int| 0 <= k < t.len() ==> is_symbol_char(#[trigger] t[k]) || t[k] == '{' || t[k] == '}',
{
    lemma_validate_interp_from(t, 0);
}

/// Whether `t[i..]` is made of ASCII letters, digits and `_`, and of
/// `{Ident}` groups naming a fragment: each piece is one such character, or
/// a `{`, an ASCII identifier and a `}`.
pub open spec fn interpolated_from(t: Seq<char>, i: int) -> bool
    decreases t.len() - i,
{
    if i < 0 || i >= t.len() {
        i == t.len()
    } else if is_symbol_char(t[i]) {
        interpolated_from(t, i + 1)
    } else {
        t[i] == '{' && exists|j: int|
            i + 1 < j < t.len() && #[trigger] t[j] == '}' && is_ident_text(t.subrange(i + 1, j))
                && interpolated_from(t, j + 1)
    }
}

proof fn lemma_close_is_first(t: Seq<char>, a: int, j: int)
    requires
        0 <= a <= j < t.len(),
        t[j] == '}',
        forall|m: int| a <= m < j ==> #[trigger] t[m] != '}',
    ensures
        spec_find_close(t, a) == j,
    decreases j - a,
{
    if a < j {
        lemma_close_is_first(t, a + 1, j);
    }
}

proof fn lemma_interpolated_from(t: Seq<char>, i: int)
    requires
        0 <= i <= t.len(),
    ensures
        spec_validate_from(t, i, true) is Ok <==> interpolated_from(t, i),
    decreases t.len() - i,
{
    if i < t.len() {
        let c = t[i];
        if c == '{' {
            let j = spec_find_close(t, i + 1);
            lemma_find_close(t, i + 1);
            if j >= 0 {
                lemma_interpolated_from(t, j + 1);
            }
            if spec_validate_from(t, i, true) is Ok {
                assert(t[j] == '}');
                assert(interpolated_from(t, i));
            }
            if interpolated_from(t, i) {
                assert(!is_symbol_char(c));
                let k = choose|k: int|
                    i + 1 < k < t.len() && #[trigger] t[k] == '}' && is_ident_text(t.subrange(i + 1, k))
                        && interpolated_from(t, k + 1);
                assert forall|m: int| i + 1 <= m < k implies #[trigger] t[m] != '}' by {
                    let name = t.subrange(i + 1, k);
                    assert(name[m - i - 1] == t[m]);
                    if m - i - 1 == 0 {
                        assert(name[0] == '_' || is_ascii_alpha(name[0]));
                    } else {
                        assert(is_symbol_char(name[m - i - 1]));
                    }
                }
                lemma_close_is_first(t, i + 1, k);
                lemma_interpolated_from(t, k + 1);
            }
        } else {
            lemma_interpolated_from(t, i + 1);
        }
    }
}

/// With interpolation, symbol text is accepted exactly when it is not empty
/// and made of ASCII letters, digits, `_` and `{Ident}` groups.
pub proof fn lemma_validate_interpolated_accepts(t: Seq<char>)
    ensures
        spec_validate_symbol(t, true) is Ok <==> (t.len() > 0 && interpolated_from(t, 0)),
{
    lemma_interpolated_from(t, 0);
}

/// Tests whether `t[a..b]` is an ASCII identifier.
fn ident_range(t: &Vec<char>, a: usize, b: usize) -> (r: bool)
    requires
        a <= b <= t.len(),
    ensures
        r == is_ident_text(t@.subrange(a as int, b as int)),
{
    if a == b {
        return false;
    }
    let c0 = t[a];
    if !(c0 == '_' || ascii_alpha(c0)) {
        return false;
    }
    let mut k = a + 1;
    while k < b
        invariant
            a < k <= b <= t.len(),
            forall|m: int| a + 1 <= m < k ==> is_symbol_char(#[trigger] t@[m]),
        decreases b - k,
    {
        let c = t[k];
        if !(ascii_alnum(c) || c == '_') {
            assert(t@.subrange(a as int, b as int)[k - a] == c);
            return false;
        }
        k = k + 1;
    }
    assert forall|m: int| 1 <= m < b - a implies is_symbol_char(
        #[trigger] t@.subrange(a as int, b as int)[m],
    ) by {
        assert(t@.subrange(a as int, b as int)[m] == t@[a + m]);
    }
    true
}

/// Checks symbol text given as characters.
pub fn validate_symbol_chars(t: &Vec<char>, interpolation: bool) -> (r: Result<(), SymbolTextError>)
    ensures
        r == spec_validate_symbol(t@, interpolation),
{
    if t.len() == 0 {
        return Err(SymbolTextError::Empty);
    }
    let mut i: usize = 0;
    while i < t.len()
        invariant
            i <= t.len(),
            spec_validate_from(t@, i as int, interpolation) == spec_validate_from(
                t@,
                0,
                interpolation,
            ),
        decreases t.len() - i,
    {
        let c = t[i];
        if interpolation && c == '{' {
            let mut j = i + 1;
            while j < t.len() && t[j] != '}'
                invariant
                    i + 1 <= j <= t.len(),
                    spec_find_close(t@, i as int + 1) == spec_find_close(t@, j as int),
                decreases t.len() - j,
            {
                j = j + 1;
            }
            if j >= t.len() {
                return Err(SymbolTextError::BadInterpolation);
            }
            if !ident_range(t, i + 1, j) {
                return Err(SymbolTextError::BadInterpolation);
            }
            i = j + 1;
        } else if c == '{' || c == '}' {
            return Err(SymbolTextError::ReservedBrace);
        } else if !(ascii_alnum(c) || c == '_') {
            return Err(SymbolTextError::InvalidCharacter);
        } else {
            i = i + 1;
        }
    }
    Ok(())
}

/// Checks symbol text: it may not be empty; with interpolation, `{Ident}`
/// stands for a fragment and other braces are refused; every other character
/// must be an ASCII letter, digit or `_`.
pub fn validate_symbol_text(text: &str, interpolation: bool) -> (r: Result<(), SymbolTextError>)
    ensures
        r == spec_validate_symbol(text@, interpolation),
{
    let t = chars_of(text);
    validate_symbol_chars(&t, interpolation)
}

} // verus!

verus! {

/// The separator between the parts of a default symbol name.
pub open spec fn spec_sep() -> Seq<char> {
    seq!['_', '_']
}

/// The part of a symbol name that interpolates a statically bound parameter.
pub open spec fn spec_param_piece(p: Seq<char>) -> Seq<char> {
    seq!['_', '_', '{'] + p + seq!['}']
}

/// The interpolation parts for the first `k` statically bound parameters.
pub open spec fn spec_params_suffix(ps: Seq<Seq<char>>, k: int) -> Seq<char>
    decreases k,
{
    if k <= 0 {
        Seq::empty()
    } else {
        spec_params_suffix(ps, k - 1) + spec_param_piece(ps[k - 1])
    }
}

/// The default symbol name of a free function or static: the prefix, the
/// item's name, and an interpolation for each statically bound parameter.
pub open spec fn spec_fn_symbol_name(prefix: Seq<char>, fn_name: Seq<char>, ps: Seq<Seq<char>>) -> Seq<
    char,
> {
    prefix + spec_sep() + fn_name + spec_params_suffix(ps, ps.len() as int)
}

/// The default symbol name of a method: the prefix, the trait (if any), the
/// self type, the method's name, and the interpolations.
pub open spec fn spec_impl_fn_symbol_name(
    prefix: Seq<char>,
    trait_name: Option<Seq<char>>,
    self_name: Seq<char>,
    fn_name: Seq<char>,
    ps: Seq<Seq<char>>,
) -> Seq<char> {
    prefix + spec_sep() + match trait_name {
        Some(t) => t + spec_sep(),
        None => Seq::empty(),
    } + self_name + spec_sep() + fn_name + spec_params_suffix(ps, ps.len() as int)
}

/// Appends the interpolation parts of the statically bound parameters.
fn push_params_suffix(out: &mut Vec<char>, params: &Vec<String>)
    ensures
        final(out)@ == old(out)@ + spec_params_suffix(
            params@.map_values(|p: String| p@),
            params@.len() as int,
        ),
{
    let ghost ps = params@.map_values(|p: String| p@);
    let ghost start = out@;
    let mut i: usize = 0;
    while i < params.len()
        invariant
            i <= params.len(),
            ps == params@.map_values(|p: String| p@),
            out@ == start + spec_params_suffix(ps, i as int),
        decreases params.len() - i,
    {
        out.push('_');
        out.push('_');
        out.push('{');
        push_str(out, params[i].as_str());
        out.push('}');
        assert(out@ =~= start + spec_params_suffix(ps, i as int + 1));
        i = i + 1;
    }
}

/// The default symbol name of a free function or static.
pub fn fn_symbol_name(prefix: &str, fn_name: &str, static_params: &Vec<String>) -> (r: String)
    ensures
        r@ == spec_fn_symbol_name(prefix@, fn_name@, static_params@.map_values(|p: String| p@)),
{
    let mut out: Vec<char> = Vec::new();
    push_str(&mut out, prefix);
    out.push('_');
    out.push('_');
    push_str(&mut out, fn_name);
    push_params_suffix(&mut out, static_params);
    let ghost ps = static_params@.map_values(|p: String| p@);
    assert(out@ =~= spec_fn_symbol_name(prefix@, fn_name@, ps));
    string_of(&out)
}

/// The default symbol name of a method, given the symbol names of the trait
/// (if any) and of the self type.
pub fn impl_fn_symbol_name(
    prefix: &str,
    trait_name: Option<&str>,
    self_name: &str,
    fn_name: &str,
    static_params: &Vec<String>,
) -> (r: String)
    ensures
        r@ == spec_impl_fn_symbol_name(
            prefix@,
            match trait_name {
                Some(t) => Some(t@),
                None => None,
            },
            self_name@,
            fn_name@,
            static_params@.map_values(|p: String| p@),
        ),
{
    let mut out: Vec<char> = Vec::new();
    push_str(&mut out, prefix);
    out.push('_');
    out.push('_');
    let ghost after_prefix = out@;
    match trait_name {
        Some(t) => {
            push_str(&mut out, t);
            out.push('_');
            out.push('_');
        },
        None => {},
    }
    let ghost after_trait = out@;
    push_str(&mut out, self_name);
    out.push('_');
    out.push('_');
    push_str(&mut out, fn_name);
    push_params_suffix(&mut out, static_params);
    let ghost ps = static_params@.map_values(|p: String| p@);
    let ghost tn = match trait_name {
        Some(t) => Some(t@),
        None => None::<Seq<char>>,
    };
    assert(after_trait =~= prefix@ + spec_sep() + match tn {
        Some(t) => t + spec_sep(),
        None => Seq::empty(),
    });
    assert(out@ =~= spec_impl_fn_symbol_name(prefix@, tn, self_name@, fn_name@, ps));
    string_of(&out)
}

proof fn lemma_find_close_shift(a: Seq<char>, b: Seq<char>, j: int)
    requires
        j >= 0,
    ensures
        spec_find_close(a + b, a.len() + j) == if spec_find_close(b, j) == -1 {
            -1
        } else {
            a.len() + spec_find_close(b, j)
        },
    decreases b.len() - j,
{
    if j >= b.len() {
    } else {
        assert((a + b)[a.len() + j] == b[j]);
        if b[j] != '}' {
            lemma_find_close_shift(a, b, j + 1);
        }
    }
}

proof fn lemma_validate_shift(a: Seq<char>, b: Seq<char>, i: int, interpolation: bool)
    requires
        i >= 0,
    ensures
        spec_validate_from(a + b, a.len() + i, interpolation) == spec_validate_from(
            b,
            i,
            interpolation,
        ),
    decreases b.len() - i,
{
    if i >= b.len() {
    } else {
        let t = a + b;
        assert(t[a.len() + i] == b[i]);
        let c = b[i];
        if interpolation && c == '{' {
            lemma_find_close_shift(a, b, i + 1);
            lemma_find_close(b, i + 1);
            let j = spec_find_close(b, i + 1);
            if j >= 0 {
                assert(t.subrange(a.len() + i + 1, a.len() + j) =~= b.subrange(i + 1, j));
                lemma_validate_shift(a, b, j + 1, interpolation);
            }
        } else if c == '{' || c == '}' {
        } else if !is_symbol_char(c) {
        } else {
            lemma_validate_shift(a, b, i + 1, interpolation);
        }
    }
}

proof fn lemma_find_close_prefix(a: Seq<char>, b: Seq<char>, j: int)
    requires
        j >= 0,
        spec_find_close(a, j) != -1,
    ensures
        spec_find_close(a + b, j) == spec_find_close(a, j),
    decreases a.len() - j,
{
    if j >= a.len() {
    } else {
        assert((a + b)[j] == a[j]);
        if a[j] != '}' {
            lemma_find_close_prefix(a, b, j + 1);
        }
    }
}

proof fn lemma_validate_prefix(a: Seq<char>, b: Seq<char>, i: int, interpolation: bool)
    requires
        0 <= i <= a.len(),
        spec_validate_from(a, i, interpolation) == Ok::<(), SymbolTextError>(()),
    ensures
        spec_validate_from(a + b, i, interpolation) == spec_validate_from(
            a + b,
            a.len() as int,
            interpolation,
        ),
    decreases a.len() - i,
{
    if i >= a.len() {
    } else {
        let t = a + b;
        assert(t[i] == a[i]);
        let c = a[i];
        if interpolation && c == '{' {
            lemma_find_close(a, i + 1);
            let j = spec_find_close(a, i + 1);
            lemma_find_close_prefix(a, b, i + 1);
            assert(t.subrange(i + 1, j) =~= a.subrange(i + 1, j));
            lemma_validate_prefix(a, b, j + 1, interpolation);
        } else {
            lemma_validate_prefix(a, b, i + 1, interpolation);
        }
    }
}

/// Two texts that each pass the check pass it when joined.
pub proof fn lemma_validate_concat(a: Seq<char>, b: Seq<char>, interpolation: bool)
    requires
        spec_validate_from(a, 0, interpolation) == Ok::<(), SymbolTextError>(()),
        spec_validate_from(b, 0, interpolation) == Ok::<(), SymbolTextError>(()),
    ensures
        spec_validate_from(a + b, 0, interpolation) == Ok::<(), SymbolTextError>(()),
{
    lemma_validate_prefix(a, b, 0, interpolation);
    lemma_validate_shift(a, b, 0, interpolation);
}

/// Text made of symbol characters passes the check from any position.
proof fn lemma_symbol_chars_validate(s: Seq<char>, i: int, interpolation: bool)
    requires
        forall|k: int| 0 <= k < s.len() ==> is_symbol_char(#[trigger] s[k]),
    ensures
        spec_validate_from(s, i, interpolation) == Ok::<(), SymbolTextError>(()),
    decreases s.len() - i,
{
    if i < 0 || i >= s.len() {
    } else {
        assert(is_symbol_char(s[i]));
        lemma_symbol_chars_validate(s, i + 1, interpolation);
    }
}

/// Text that passes the check without interpolation is made of symbol characters.
proof fn lemma_validate_plain_chars(s: Seq<char>, i: int)
    requires
        0 <= i,
        spec_validate_from(s, i, false) == Ok::<(), SymbolTextError>(()),
    ensures
        forall|k: int| i <= k < s.len() ==> is_symbol_char(#[trigger] s[k]),
    decreases s.len() - i,
{
    if i >= s.len() {
    } else {
        lemma_validate_plain_chars(s, i + 1);
    }
}

proof fn lemma_piece_validates(p: Seq<char>)
    requires
        is_ident_text(p),
    ensures
        spec_validate_from(spec_param_piece(p), 0, true) == Ok::<(), SymbolTextError>(()),
{
    let s = spec_param_piece(p);
    assert(s[0] == '_' && s[1] == '_' && s[2] == '{');
    lemma_find_close(s, 3);
    assert forall|m: int| 3 <= m < s.len() - 1 implies #[trigger] s[m] != '}' by {
        assert(s[m] == p[m - 3]);
        if m > 3 {
            assert(is_symbol_char(p[m - 3]));
        } else {
            assert(p[0] == '_' || is_ascii_alpha(p[0]));
        }
    }
    assert(s[s.len() - 1] == '}');
    if spec_find_close(s, 3) == -1 {
        assert(s[s.len() - 1] != '}');
    }
    assert(spec_find_close(s, 3) == s.len() - 1);
    assert(s.subrange(3, s.len() - 1) =~= p);
    assert(spec_validate_from(s, s.len() as int, true) == Ok::<(), SymbolTextError>(()));
    assert(spec_validate_from(s, 2, true) == Ok::<(), SymbolTextError>(()));
    assert(spec_validate_from(s, 1, true) == Ok::<(), SymbolTextError>(()));
}

proof fn lemma_suffix_validates(ps: Seq<Seq<char>>, k: int)
    requires
        0 <= k <= ps.len(),
        forall|m: int| 0 <= m < ps.len() ==> is_ident_text(#[trigger] ps[m]),
    ensures
        spec_validate_from(spec_params_suffix(ps, k), 0, true) == Ok::<(), SymbolTextError>(()),
    decreases k,
{
    if k > 0 {
        lemma_suffix_validates(ps, k - 1);
        lemma_piece_validates(ps[k - 1]);
        lemma_validate_concat(spec_params_suffix(ps, k - 1), spec_param_piece(ps[k - 1]), true);
    }
}

proof fn lemma_plain_validates_interp(s: Seq<char>)
    requires
        spec_validate_symbol(s, false) == Ok::<(), SymbolTextError>(()),
    ensures
        spec_validate_from(s, 0, true) == Ok::<(), SymbolTextError>(()),
{
    lemma_validate_plain_chars(s, 0);
    lemma_symbol_chars_validate(s, 0, true);
}

proof fn lemma_sep_validates()
    ensures
        spec_validate_from(spec_sep(), 0, true) == Ok::<(), SymbolTextError>(()),
{
    lemma_symbol_chars_validate(spec_sep(), 0, true);
}

proof fn lemma_ident_validates(s: Seq<char>)
    requires
        is_ident_text(s),
    ensures
        spec_validate_from(s, 0, true) == Ok::<(), SymbolTextError>(()),
{
    lemma_symbol_chars_validate(s, 0, true);
}

/// Default symbol names pass the symbol check with interpolation, whenever the
/// prefix, the trait and self type names pass it without interpolation and the
/// method and parameter names are ASCII identifiers.
pub proof fn lemma_default_symbol_names_valid(
    prefix: Seq<char>,
    trait_name: Option<Seq<char>>,
    self_name: Seq<char>,
    fn_name: Seq<char>,
    ps: Seq<Seq<char>>,
)
    requires
        spec_validate_symbol(prefix, false) == Ok::<(), SymbolTextError>(()),
        trait_name matches Some(t) ==> spec_validate_symbol(t, false) == Ok::<(), SymbolTextError>(()),
        spec_validate_symbol(self_name, false) == Ok::<(), SymbolTextError>(()),
        is_ident_text(fn_name),
        forall|m: int| 0 <= m < ps.len() ==> is_ident_text(#[trigger] ps[m]),
    ensures
        spec_validate_symbol(spec_fn_symbol_name(prefix, fn_name, ps), true) == Ok::<
            (),
            SymbolTextError,
        >(()),
        spec_validate_symbol(
            spec_impl_fn_symbol_name(prefix, trait_name, self_name, fn_name, ps),
            true,
        ) == Ok::<(), SymbolTextError>(()),
{
    lemma_plain_validates_interp(prefix);
    lemma_plain_validates_interp(self_name);
    lemma_sep_validates();
    lemma_ident_validates(fn_name);
    let suffix = spec_params_suffix(ps, ps.len() as int);
    lemma_suffix_validates(ps, ps.len() as int);
    lemma_validate_concat(prefix, spec_sep(), true);
    lemma_validate_concat(prefix + spec_sep(), fn_name, true);
    lemma_validate_concat(prefix + spec_sep() + fn_name, suffix, true);
    let middle = match trait_name {
        Some(t) => t + spec_sep(),
        None => Seq::empty(),
    };
    match trait_name {
        Some(t) => {
            lemma_plain_validates_interp(t);
            lemma_validate_concat(t, spec_sep(), true);
        },
        None => {},
    }
    lemma_validate_concat(prefix + spec_sep(), middle, true);
    let a = prefix + spec_sep() + middle;
    lemma_validate_concat(a, self_name, true);
    lemma_validate_concat(a + self_name, spec_sep(), true);
    lemma_validate_concat(a + self_name + spec_sep(), fn_name, true);
    lemma_validate_concat(a + self_name + spec_sep() + fn_name, suffix, true);
}

} // verus!

verus! {

/// The symbol name of a type: built from its shape for paths, references,
/// slices, arrays, pointers and tuples, and sanitized from its text otherwise.
pub open spec fn spec_ty_sym(t: Ty) -> Seq<char>
    decreases t, 0int,
{
    match t {
        Ty::Path(p) => spec_path_sym(p),
        Ty::Reference { mutable, elem, .. } => (if mutable {
            "mut_ref"@
        } else {
            "ref"@
        }) + seq!['_'] + spec_ty_sym(*elem),
        Ty::Slice(elem) => "slice_"@ + spec_ty_sym(*elem),
        Ty::Array { elem, len } => "array_"@ + spec_ty_sym(*elem) + seq!['_'] + spec_sanitize(len@),
        Ty::Ptr { mutable, elem } => (if mutable {
            "mut_ptr"@
        } else {
            "const_ptr"@
        }) + seq!['_'] + spec_ty_sym(*elem),
        Ty::Tuple(elems) => if elems@.len() == 0 {
            "unit"@
        } else {
            "tuple_"@ + spec_tys_joined(elems@, elems@.len() as int)
        },
        Ty::FnPtr { text, .. } => spec_sanitize(text@),
        Ty::ImplTrait { text, .. } => spec_sanitize(text@),
        Ty::TraitObject { text, .. } => spec_sanitize(text@),
        Ty::Paren { text, .. } => spec_sanitize(text@),
        Ty::Group { text, .. } => spec_sanitize(text@),
        Ty::Infer => spec_sanitize(seq!['_']),
        Ty::Other(text) => spec_sanitize(text@),
    }
}

/// The symbol names of the first `k` types, joined by `_`.
pub open spec fn spec_tys_joined(s: Seq<Ty>, k: int) -> Seq<char>
    decreases s, k,
{
    if k <= 0 || k > s.len() {
        Seq::empty()
    } else if k == 1 {
        spec_ty_sym(s[0])
    } else {
        spec_tys_joined(s, k - 1) + seq!['_'] + spec_ty_sym(s[k - 1])
    }
}

/// The symbol name of a path: its last segment's name followed by the symbol
/// names of its generic arguments, sanitized; `Self` for an empty path.
pub open spec fn spec_path_sym(p: TyPath) -> Seq<char>
    decreases p, 0int,
{
    if p.segments@.len() == 0 {
        "Self"@
    } else {
        let seg = p.segments@.last();
        spec_sanitize(
            seg.ident@ + match seg.args {
                PathArgs::Angle(args) => spec_args_sym(args@, args@.len() as int),
                _ => Seq::empty(),
            },
        )
    }
}

/// The `_`-prefixed symbol names of the first `k` generic arguments, skipping
/// those without a name.
pub open spec fn spec_args_sym(s: Seq<GenericArg>, k: int) -> Seq<char>
    decreases s, k,
{
    if k <= 0 || k > s.len() {
        Seq::empty()
    } else {
        spec_args_sym(s, k - 1) + match spec_arg_sym(s[k - 1]) {
            Some(n) => if n.len() > 0 {
                seq!['_'] + n
            } else {
                Seq::empty()
            },
            None => Seq::empty(),
        }
    }
}

/// The symbol name of a generic argument; lifetimes have none.
pub open spec fn spec_arg_sym(a: GenericArg) -> Option<Seq<char>>
    decreases a, 0int,
{
    match a {
        GenericArg::Lifetime(_) => None,
        GenericArg::Type(t) => Some(spec_ty_sym(t)),
        GenericArg::Const(text) => Some(spec_sanitize(text@)),
        GenericArg::AssocType(ident, t) => Some(ident@ + seq!['_'] + spec_ty_sym(t)),
        GenericArg::AssocConst(ident, value) => Some(ident@ + seq!['_'] + spec_sanitize(value@)),
        GenericArg::Constraint(ident, _) => Some(ident@),
        GenericArg::Other(text) => Some(spec_sanitize(text@)),
    }
}

/// The symbol name of a type.
pub fn type_symbol_name(t: &Ty) -> (r: String)
    ensures
        r@ == spec_ty_sym(*t),
{
    let v = ty_sym(t);
    string_of(&v)
}

/// The symbol name of a path.
pub fn path_symbol_name(p: &TyPath) -> (r: String)
    ensures
        r@ == spec_path_sym(*p),
{
    let v = path_sym(p);
    string_of(&v)
}

/// The symbol name of a generic argument, if it has one.
pub fn generic_arg_symbol_name(a: &GenericArg) -> (r: Option<String>)
    ensures
        match r {
            Some(s) => spec_arg_sym(*a) == Some(s@),
            None => spec_arg_sym(*a) is None,
        },
{
    match arg_sym(a) {
        Some(v) => Some(string_of(&v)),
        None => None,
    }
}

fn sanitize_str(s: &str) -> (r: Vec<char>)
    ensures
        r@ == spec_sanitize(s@),
{
    let v = chars_of(s);
    sanitize_chars(&v)
}

fn ty_sym(t: &Ty) -> (r: Vec<char>)
    ensures
        r@ == spec_ty_sym(*t),
    decreases t, 0int,
{
    match t {
        Ty::Path(p) => {
            proof {
                assert(decreases_to!(*t => (*t)->Path_0));
            }
            path_sym(p)
        },
        Ty::Reference { mutable, elem, .. } => {
            let mut out: Vec<char> = Vec::new();
            if *mutable {
                push_str(&mut out, "mut_ref");
            } else {
                push_str(&mut out, "ref");
            }
            out.push('_');
            proof {
                assert(decreases_to!(*t => (*t)->Reference_elem));
            }
            let inner = ty_sym(elem);
            push_chars(&mut out, &inner);
            out
        },
        Ty::Slice(elem) => {
            let mut out: Vec<char> = Vec::new();
            push_str(&mut out, "slice_");
            proof {
                assert(decreases_to!(*t => (*t)->Slice_0));
            }
            let inner = ty_sym(elem);
            push_chars(&mut out, &inner);
            out
        },
        Ty::Array { elem, len } => {
            let mut out: Vec<char> = Vec::new();
            push_str(&mut out, "array_");
            proof {
                assert(decreases_to!(*t => (*t)->Array_elem));
            }
            let inner = ty_sym(elem);
            push_chars(&mut out, &inner);
            out.push('_');
            let l = sanitize_str(len.as_str());
            push_chars(&mut out, &l);
            out
        },
        Ty::Ptr { mutable, elem } => {
            let mut out: Vec<char> = Vec::new();
            if *mutable {
                push_str(&mut out, "mut_ptr");
            } else {
                push_str(&mut out, "const_ptr");
            }
            out.push('_');
            proof {
                assert(decreases_to!(*t => (*t)->Ptr_elem));
            }
            let inner = ty_sym(elem);
            push_chars(&mut out, &inner);
            out
        },
        Ty::Tuple(elems) => {
            let mut out: Vec<char> = Vec::new();
            if elems.len() == 0 {
                push_str(&mut out, "unit");
                return out;
            }
            push_str(&mut out, "tuple_");
            let ghost head = out@;
            let mut i: usize = 0;
            while i < elems.len()
                invariant
                    i <= elems.len(),
                    *t == Ty::Tuple(*elems),
                    out@ == head + spec_tys_joined(elems@, i as int),
                decreases elems.len() - i,
            {
                if i > 0 {
                    out.push('_');
                }
                proof {
                    assert(decreases_to!(*t => (*t)->Tuple_0));
                    assert(decreases_to!(*elems => elems@));
                    assert(decreases_to!(elems@ => elems@[i as int]));
                }
                let s = ty_sym(&elems[i]);
                push_chars(&mut out, &s);
                i = i + 1;
                assert(out@ =~= head + spec_tys_joined(elems@, i as int));
            }
            out
        },
        Ty::FnPtr { text, .. } => sanitize_str(text.as_str()),
        Ty::ImplTrait { text, .. } => sanitize_str(text.as_str()),
        Ty::TraitObject { text, .. } => sanitize_str(text.as_str()),
        Ty::Paren { text, .. } => sanitize_str(text.as_str()),
        Ty::Group { text, .. } => sanitize_str(text.as_str()),
        Ty::Infer => {
            let mut v: Vec<char> = Vec::new();
            v.push('_');
            sanitize_chars(&v)
        },
        Ty::Other(text) => sanitize_str(text.as_str()),
    }
}

fn path_sym(p: &TyPath) -> (r: Vec<char>)
    ensures
        r@ == spec_path_sym(*p),
    decreases p, 0int,
{
    if p.segments.len() == 0 {
        let mut out: Vec<char> = Vec::new();
        push_str(&mut out, "Self");
        return out;
    }
    let seg = &p.segments[p.segments.len() - 1];
    let mut out: Vec<char> = Vec::new();
    push_str(&mut out, seg.ident.as_str());
    match &seg.args {
        PathArgs::Angle(args) => {
            let ghost head = out@;
            let mut k: usize = 0;
            while k < args.len()
                invariant
                    k <= args.len(),
                    seg == p.segments@.last(),
                    seg.args == PathArgs::Angle(*args),
                    p.segments@.len() > 0,
                    out@ == head + spec_args_sym(args@, k as int),
                decreases args.len() - k,
            {
                proof {
                    assert(decreases_to!(*p => p.segments));
                    assert(decreases_to!(p.segments => p.segments@));
                    assert(decreases_to!(p.segments@ => p.segments@[p.segments@.len() - 1]));
                    assert(decreases_to!(*seg => seg.args));
                    assert(decreases_to!(seg.args => seg.args->Angle_0));
                    assert(decreases_to!(*args => args@));
                    assert(decreases_to!(args@ => args@[k as int]));
                }
                match arg_sym(&args[k]) {
                    Some(n) => {
                        if n.len() > 0 {
                            out.push('_');
                            push_chars(&mut out, &n);
                        }
                    },
                    None => {},
                }
                k = k + 1;
                assert(out@ =~= head + spec_args_sym(args@, k as int));
            }
        },
        _ => {},
    }
    let ghost joined = out@;
    assert(joined =~= seg.ident@ + match seg.args {
        PathArgs::Angle(args) => spec_args_sym(args@, args@.len() as int),
        _ => Seq::empty(),
    });
    sanitize_chars(&out)
}

fn arg_sym(a: &GenericArg) -> (r: Option<Vec<char>>)
    ensures
        match r {
            Some(v) => spec_arg_sym(*a) == Some(v@),
            None => spec_arg_sym(*a) is None,
        },
    decreases a, 0int,
{
    match a {
        GenericArg::Lifetime(_) => None,
        GenericArg::Type(t) => {
            proof {
                assert(decreases_to!(*a => (*a)->Type_0));
            }
            Some(ty_sym(t))
        },
        GenericArg::Const(text) => Some(sanitize_str(text.as_str())),
        GenericArg::AssocType(ident, t) => {
            let mut out = chars_of(ident.as_str());
            out.push('_');
            proof {
                assert(decreases_to!(*a => (*a)->AssocType_1));
            }
            let s = ty_sym(t);
            push_chars(&mut out, &s);
            Some(out)
        },
        GenericArg::AssocConst(ident, value) => {
            let mut out = chars_of(ident.as_str());
            out.push('_');
            let s = sanitize_str(value.as_str());
            push_chars(&mut out, &s);
            Some(out)
        },
        GenericArg::Constraint(ident, _) => Some(chars_of(ident.as_str())),
        GenericArg::Other(text) => Some(sanitize_str(text.as_str())),
    }
}


/// The symbol name of a raw pointer type is `mut_ptr_` (for `*mut T`) or
/// `const_ptr_` (for `*const T`) followed by the symbol name of `T`; of a
/// reference, `mut_ref_` or `ref_` followed by that of the referent; of a
/// slice, `slice_` followed by that of its element. So `*mut T` and
/// `*const T`, and `&mut T` and `&T`, never share a name.
pub proof fn lemma_pointer_and_reference_symbols(elem: Ty, lifetime: Option<String>)
    ensures
        spec_ty_sym(Ty::Ptr { mutable: true, elem: Box::new(elem) }) == seq!['m', 'u', 't', '_', 'p', 't', 'r', '_']
            + spec_ty_sym(elem),
        spec_ty_sym(Ty::Ptr { mutable: false, elem: Box::new(elem) }) == seq!['c', 'o', 'n', 's', 't', '_', 'p', 't', 'r', '_']
            + spec_ty_sym(elem),
        spec_ty_sym(Ty::Ptr { mutable: true, elem: Box::new(elem) }) != spec_ty_sym(
            Ty::Ptr { mutable: false, elem: Box::new(elem) },
        ),
        spec_ty_sym(Ty::Reference { lifetime, mutable: true, elem: Box::new(elem) }) == seq!['m', 'u', 't', '_', 'r', 'e', 'f', '_']
            + spec_ty_sym(elem),
        spec_ty_sym(Ty::Reference { lifetime, mutable: false, elem: Box::new(elem) }) == seq!['r', 'e', 'f', '_']
            + spec_ty_sym(elem),
        spec_ty_sym(Ty::Reference { lifetime, mutable: true, elem: Box::new(elem) }) != spec_ty_sym(
            Ty::Reference { lifetime, mutable: false, elem: Box::new(elem) },
        ),
        spec_ty_sym(Ty::Slice(Box::new(elem))) == seq!['s', 'l', 'i', 'c', 'e', '_'] + spec_ty_sym(elem),
{
    reveal_strlit("mut_ptr");
    reveal_strlit("const_ptr");
    reveal_strlit("mut_ref");
    reveal_strlit("ref");
    reveal_strlit("slice_");
    let e = spec_ty_sym(elem);
    let mp = Ty::Ptr { mutable: true, elem: Box::new(elem) };
    let cp = Ty::Ptr { mutable: false, elem: Box::new(elem) };
    assert(spec_ty_sym(mp) =~= seq!['m', 'u', 't', '_', 'p', 't', 'r', '_'] + e);
    assert(spec_ty_sym(cp) =~= seq!['c', 'o', 'n', 's', 't', '_', 'p', 't', 'r', '_'] + e);
    assert(spec_ty_sym(mp)[0] != spec_ty_sym(cp)[0]);
    let mr = Ty::Reference { lifetime, mutable: true, elem: Box::new(elem) };
    let cr = Ty::Reference { lifetime, mutable: false, elem: Box::new(elem) };
    assert(spec_ty_sym(mr) =~= seq!['m', 'u', 't', '_', 'r', 'e', 'f', '_'] + e);
    assert(spec_ty_sym(cr) =~= seq!['r', 'e', 'f', '_'] + e);
    assert(spec_ty_sym(mr)[0] != spec_ty_sym(cr)[0]);
    assert(spec_ty_sym(Ty::Slice(Box::new(elem))) =~= seq!['s', 'l', 'i', 'c', 'e', '_'] + e);
}


/// Default symbol names: a free function `f` under prefix `p` is `p__f`; a
/// method `m` of type `T` is `p__T__m`, and of trait `R` for `T`,
/// `p__R__T__m`; each statically bound parameter adds `__{P}`, in order.
/// The unit type is named `unit`, and an empty path `Self`.
pub proof fn lemma_default_symbol_name_shapes(
    prefix: Seq<char>,
    trait_name: Seq<char>,
    self_name: Seq<char>,
    fn_name: Seq<char>,
    param: Seq<char>,
    elems: Vec<Ty>,
    p: TyPath,
)
    ensures
        spec_fn_symbol_name(prefix, fn_name, Seq::empty()) == prefix + seq!['_', '_'] + fn_name,
        spec_fn_symbol_name(prefix, fn_name, seq![param]) == prefix + seq!['_', '_'] + fn_name + seq!['_', '_', '{'] + param
            + seq!['}'],
        spec_impl_fn_symbol_name(prefix, None, self_name, fn_name, Seq::empty()) == prefix + seq!['_', '_'] + self_name
            + seq!['_', '_'] + fn_name,
        spec_impl_fn_symbol_name(prefix, Some(trait_name), self_name, fn_name, Seq::empty()) == prefix + seq!['_', '_']
            + trait_name + seq!['_', '_'] + self_name + seq!['_', '_'] + fn_name,
        elems@.len() == 0 ==> spec_ty_sym(Ty::Tuple(elems)) == seq!['u', 'n', 'i', 't'],
        p.segments@.len() == 0 ==> spec_path_sym(p) == seq!['S', 'e', 'l', 'f'],
{
    reveal_strlit("unit");
    reveal_strlit("Self");
    assert(spec_params_suffix(Seq::<Seq<char>>::empty(), 0) =~= Seq::<char>::empty());
    assert(spec_params_suffix(seq![param], 0) =~= Seq::<char>::empty());
    assert(seq![param][0] == param);
    assert(spec_params_suffix(seq![param], 1) == spec_params_suffix(seq![param], 0) + spec_param_piece(param));
    assert(spec_params_suffix(seq![param], 1) =~= seq!['_', '_', '{'] + param + seq!['}']);
    assert(spec_fn_symbol_name(prefix, fn_name, Seq::empty()) =~= prefix + seq!['_', '_'] + fn_name);
    assert(spec_fn_symbol_name(prefix, fn_name, seq![param]) =~= prefix + seq!['_', '_'] + fn_name + seq!['_', '_', '{']
        + param + seq!['}']);
    assert(spec_impl_fn_symbol_name(prefix, None, self_name, fn_name, Seq::empty()) =~= prefix + seq!['_', '_'] + self_name
        + seq!['_', '_'] + fn_name);
    assert(spec_impl_fn_symbol_name(prefix, Some(trait_name), self_name, fn_name, Seq::empty()) =~= prefix + seq!['_', '_']
        + trait_name + seq!['_', '_'] + self_name + seq!['_', '_'] + fn_name);
    assert("unit"@ =~= seq!['u', 'n', 'i', 't']);
    assert("Self"@ =~= seq!['S', 'e', 'l', 'f']);
}


/// A path is named after its last segment (`std::string::String` gives the
/// sanitized `String`), not any earlier one.
pub proof fn lemma_path_symbol_uses_last_segment(p: TyPath)
    requires
        p.segments@.len() > 0,
        p.segments@[p.segments@.len() - 1].args is Bare,
    ensures
        spec_path_sym(p) == spec_sanitize(p.segments@[p.segments@.len() - 1].ident@),
{
    assert(p.segments@.last() == p.segments@[p.segments@.len() - 1]);
    assert(p.segments@[p.segments@.len() - 1].ident@ + Seq::<char>::empty() =~= p.segments@[p.segments@.len() - 1].ident@);
}

} // verus!
