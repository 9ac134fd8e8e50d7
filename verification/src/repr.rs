//! Parsing of the standard `#[repr(...)]` attribute.
use vstd::prelude::*;
use crate::text::str_eq;
use crate::tokens::{Attr, AttrMeta, Delimiter, Tok, attr_is_ident, attr_path_is, is_punct, tok_is_punct};

verus! {

/// An integer type that can be named as an enum repr.
#[derive(Debug, Clone, Copy, PartialEq, Eq, Structural)]
pub enum ReprPrimitive {
    U8,
    I8,
    U16,
    I16,
    U32,
    I32,
    I64,
    U64,
}

/// The layout kind that a repr selects.
#[derive(Debug, Clone, Copy, PartialEq, Eq, Structural)]
pub enum ReprKind {
    C(Option<ReprPrimitive>),
    Primitive(ReprPrimitive),
    Transparent,
}

/// An alignment modifier of a repr.
#[derive(Debug, Clone, Copy, PartialEq, Eq, Structural)]
pub enum ReprAlignment {
    Packed,
    Aligned(u32),
}

/// One item of a repr list.
#[derive(Debug, Clone, Copy, PartialEq, Eq, Structural)]
pub enum ReprToken {
    Kind(ReprKind),
    Alignment(ReprAlignment),
}

/// A repr item with the index of the token where it starts.
#[derive(Debug, Clone, Copy, PartialEq, Eq, Structural)]
pub struct SpannedReprToken {
    pub start: usize,
    pub token: ReprToken,
}

/// What can be wrong with the repr attributes of an item. Each error holds the
/// index of the attribute or of the token that it is about.
#[derive(Debug, Clone, Copy, PartialEq, Eq, Structural)]
pub enum ReprError {
    MultipleReprAttributes { attr: usize },
    ExpectedReprKind { token: usize },
    UnrecognizedReprKind { token: usize },
    ExpectedComma { token: usize },
    DuplicateKind { token: usize },
    DuplicateAlignment { token: usize },
}

/// The repr of an item: its kind, `None` where no repr names one (what the
/// reference calls `repr()`). The alignment is checked but not kept.
#[derive(Debug, Clone, Copy, PartialEq, Eq, Structural)]
pub struct Repr {
    pub kind: Option<ReprKind>,
}

/// The name of a primitive repr, as written in source.
pub open spec fn spec_primitive_name(p: ReprPrimitive) -> Seq<char> {
    match p {
        ReprPrimitive::U8 => "u8"@,
        ReprPrimitive::I8 => "i8"@,
        ReprPrimitive::U16 => "u16"@,
        ReprPrimitive::I16 => "i16"@,
        ReprPrimitive::U32 => "u32"@,
        ReprPrimitive::I32 => "i32"@,
        ReprPrimitive::I64 => "i64"@,
        ReprPrimitive::U64 => "u64"@,
    }
}

/// The primitive repr that an identifier names, if any.
pub open spec fn spec_primitive_named(s: Seq<char>) -> Option<ReprPrimitive> {
    if s == "u8"@ {
        Some(ReprPrimitive::U8)
    } else if s == "i8"@ {
        Some(ReprPrimitive::I8)
    } else if s == "u16"@ {
        Some(ReprPrimitive::U16)
    } else if s == "i16"@ {
        Some(ReprPrimitive::I16)
    } else if s == "u32"@ {
        Some(ReprPrimitive::U32)
    } else if s == "i32"@ {
        Some(ReprPrimitive::I32)
    } else if s == "i64"@ {
        Some(ReprPrimitive::I64)
    } else if s == "u64"@ {
        Some(ReprPrimitive::U64)
    } else {
        None
    }
}

/// The integer value of a literal as an integer literal of type `u32`:
/// `None` unless the text is an integer literal whose digits fit in `u32`.
pub uninterp spec fn lit_int_u32(text: Seq<char>) -> Option<u32>;

/// Whether the text is one or more ASCII decimal digits and nothing else.
pub open spec fn is_decimal_digits(text: Seq<char>) -> bool {
    text.len() > 0 && forall|i: int| 0 <= i < text.len() ==> '0' <= #[trigger] text[i] <= '9'
}

/// The value of a run of decimal digits.
pub open spec fn decimal_value(text: Seq<char>) -> nat
    decreases text.len(),
{
    if text.len() == 0 {
        0
    } else {
        decimal_value(text.drop_last()) * 10 + ((text.last() as int) - ('0' as int)) as nat
    }
}

/// Calls `syn::parse_str::<syn::LitInt>` on the literal's text and then
/// `LitInt::base10_parse::<u32>`. The contract states the result for a text
/// of plain decimal digits (its value where that fits in `u32`, else
/// `None`); for the other forms of integer literal (a `0x`, `0o` or `0b`
/// prefix, `_` separators, a suffix) it claims only that the result is a
/// function of the text.
#[verifier::external_body]
fn parse_lit_int_u32(text: &str) -> (r: Option<u32>)
    ensures
        r == lit_int_u32(text@),
        is_decimal_digits(text@) ==> r == (if decimal_value(text@) <= u32::MAX {
            Some(decimal_value(text@) as u32)
        } else {
            None::<u32>
        }),
{
    syn::parse_str::<syn::LitInt>(text).and_then(|lit| lit.base10_parse::<u32>()).ok()
}

/// The alignment that `aligned(...)` asks for: the value of its single integer
/// literal, or 1 where the parentheses hold anything else.
pub open spec fn spec_alignment_value(inner: Seq<Tok>) -> u32 {
    if inner.len() == 1 {
        match inner[0] {
            Tok::Literal(text) => match lit_int_u32(text@) {
                Some(v) => v,
                None => 1,
            },
            _ => 1,
        }
    } else {
        1
    }
}

/// Whether the token at `i` is a parenthesized group.
pub open spec fn is_paren_group_at(toks: Seq<Tok>, i: int) -> bool {
    0 <= i < toks.len() && match toks[i] {
        Tok::Group(d, _) => d == Delimiter::Parenthesis,
        _ => false,
    }
}

/// The tokens inside the group at `i`.
pub open spec fn group_inner_at(toks: Seq<Tok>, i: int) -> Seq<Tok> {
    match toks[i] {
        Tok::Group(_, inner) => inner@,
        _ => Seq::empty(),
    }
}

/// Whether the token at `i` is the identifier `name`.
pub open spec fn is_ident_at(toks: Seq<Tok>, i: int, name: Seq<char>) -> bool {
    0 <= i < toks.len() && match toks[i] {
        Tok::Ident(s) => s@ == name,
        _ => false,
    }
}

/// The repr item that starts at `i` with the index just past it, or the error
/// that it is.
pub open spec fn spec_parse_item(toks: Seq<Tok>, i: int) -> Result<(ReprToken, int), ReprError> {
    match toks[i] {
        Tok::Ident(s) => {
            if let Some(p) = spec_primitive_named(s@) {
                Ok((ReprToken::Kind(ReprKind::Primitive(p)), i + 1))
            } else if s@ == "transparent"@ {
                Ok((ReprToken::Kind(ReprKind::Transparent), i + 1))
            } else if s@ == "C"@ {
                Ok((ReprToken::Kind(ReprKind::C(None)), i + 1))
            } else if s@ == "packed"@ {
                Ok((ReprToken::Alignment(ReprAlignment::Packed), i + 1))
            } else if s@ == "aligned"@ {
                if is_paren_group_at(toks, i + 1) {
                    Ok(
                        (
                            ReprToken::Alignment(
                                ReprAlignment::Aligned(
                                    spec_alignment_value(group_inner_at(toks, i + 1)),
                                ),
                            ),
                            i + 2,
                        ),
                    )
                } else {
                    Ok((ReprToken::Alignment(ReprAlignment::Aligned(1)), i + 1))
                }
            } else {
                Err(ReprError::UnrecognizedReprKind { token: i as usize })
            }
        },
        _ => Err(ReprError::ExpectedReprKind { token: i as usize }),
    }
}

/// A repr item ends after it starts.
pub proof fn lemma_item_end(toks: Seq<Tok>, i: int)
    ensures
        spec_parse_item(toks, i) matches Ok((_, j)) ==> i < j <= i + 2,
{
}

/// The comma-separated repr items from `i` on, appended to `acc`; a trailing
/// comma is allowed.
pub open spec fn spec_parse_items(toks: Seq<Tok>, i: int, acc: Seq<SpannedReprToken>) -> Result<
    Seq<SpannedReprToken>,
    ReprError,
>
    decreases toks.len() - i,
{
    if i < 0 || i >= toks.len() {
        Ok(acc)
    } else {
        match spec_parse_item(toks, i) {
            Err(e) => Err(e),
            Ok((t, j)) => {
                proof {
                    lemma_item_end(toks, i);
                }
                let acc2 = acc.push(SpannedReprToken { start: i as usize, token: t });
                if j >= toks.len() {
                    Ok(acc2)
                } else if is_punct(toks[j], ',') {
                    spec_parse_items(toks, j + 1, acc2)
                } else {
                    Err(ReprError::ExpectedComma { token: j as usize })
                }
            },
        }
    }
}

/// The items of a repr list.
pub open spec fn spec_parse_repr_list(toks: Seq<Tok>) -> Result<Seq<SpannedReprToken>, ReprError> {
    spec_parse_items(toks, 0, Seq::empty())
}

/// The kind, alignment and errors gathered while reading repr items.
pub struct ReprState {
    pub kind: Option<ReprKind>,
    pub alignment: Option<ReprAlignment>,
    pub errors: Seq<ReprError>,
}

/// Reads one repr item: `C` and a primitive combine into `C(primitive)` in
/// either order; any other second kind, and any second alignment, is an error.
pub open spec fn spec_repr_step(st: ReprState, item: SpannedReprToken) -> ReprState {
    match item.token {
        ReprToken::Kind(new_kind) => match (st.kind, new_kind) {
            (Some(ReprKind::C(None)), ReprKind::Primitive(p)) => ReprState {
                kind: Some(ReprKind::C(Some(p))),
                ..st
            },
            (Some(ReprKind::Primitive(p)), ReprKind::C(None)) => ReprState {
                kind: Some(ReprKind::C(Some(p))),
                ..st
            },
            (Some(_), _) => ReprState {
                errors: st.errors.push(ReprError::DuplicateKind { token: item.start }),
                ..st
            },
            (None, k) => ReprState { kind: Some(k), ..st },
        },
        ReprToken::Alignment(a) => ReprState {
            alignment: Some(a),
            errors: if st.alignment is Some {
                st.errors.push(ReprError::DuplicateAlignment { token: item.start })
            } else {
                st.errors
            },
            ..st
        },
    }
}

/// Reads the items `k..` into the state.
pub open spec fn spec_repr_fold(items: Seq<SpannedReprToken>, k: int, st: ReprState) -> ReprState
    decreases items.len() - k,
{
    if k < 0 || k >= items.len() {
        st
    } else {
        spec_repr_fold(items, k + 1, spec_repr_step(st, items[k]))
    }
}

/// The positions of the attributes `i..` whose path is `repr`.
pub open spec fn spec_repr_attr_indices(attrs: Seq<Attr>, i: int) -> Seq<int>
    decreases attrs.len() - i,
{
    if i < 0 || i >= attrs.len() {
        Seq::empty()
    } else if attr_is_ident(attrs[i], "repr"@) {
        seq![i] + spec_repr_attr_indices(attrs, i + 1)
    } else {
        spec_repr_attr_indices(attrs, i + 1)
    }
}

/// The repr that the attributes of an item declare, or the errors in them.
/// More than one `repr` attribute is an error on each after the first; a
/// `repr` that is not a list declares nothing.
pub open spec fn spec_repr_from_attributes(attrs: Seq<Attr>) -> Result<Repr, Seq<ReprError>> {
    let idx = spec_repr_attr_indices(attrs, 0);
    if idx.len() > 1 {
        Err(
            Seq::new(
                (idx.len() - 1) as nat,
                |k: int| ReprError::MultipleReprAttributes { attr: idx[k + 1] as usize },
            ),
        )
    } else if idx.len() == 0 {
        Ok(Repr { kind: None })
    } else {
        match attrs[idx[0]].meta {
            AttrMeta::List(toks) => match spec_parse_repr_list(toks@) {
                Err(e) => Err(seq![e]),
                Ok(items) => {
                    let st = spec_repr_fold(
                        items,
                        0,
                        ReprState { kind: None, alignment: None, errors: Seq::empty() },
                    );
                    if st.errors.len() > 0 {
                        Err(st.errors)
                    } else {
                        Ok(Repr { kind: st.kind })
                    }
                },
            },
            _ => Ok(Repr { kind: None }),
        }
    }
}

impl ReprPrimitive {
    /// The name of the primitive, as written in source.
    pub fn name(&self) -> (s: &'static str)
        ensures
            s@ == spec_primitive_name(*self),
    {
        match self {
            ReprPrimitive::U8 => "u8",
            ReprPrimitive::I8 => "i8",
            ReprPrimitive::U16 => "u16",
            ReprPrimitive::I16 => "i16",
            ReprPrimitive::U32 => "u32",
            ReprPrimitive::I32 => "i32",
            ReprPrimitive::I64 => "i64",
            ReprPrimitive::U64 => "u64",
        }
    }

    /// The primitive repr that an identifier names, if any.
    pub fn from_name(s: &str) -> (r: Option<ReprPrimitive>)
        ensures
            r == spec_primitive_named(s@),
    {
        if str_eq(s, "u8") {
            Some(ReprPrimitive::U8)
        } else if str_eq(s, "i8") {
            Some(ReprPrimitive::I8)
        } else if str_eq(s, "u16") {
            Some(ReprPrimitive::U16)
        } else if str_eq(s, "i16") {
            Some(ReprPrimitive::I16)
        } else if str_eq(s, "u32") {
            Some(ReprPrimitive::U32)
        } else if str_eq(s, "i32") {
            Some(ReprPrimitive::I32)
        } else if str_eq(s, "i64") {
            Some(ReprPrimitive::I64)
        } else if str_eq(s, "u64") {
            Some(ReprPrimitive::U64)
        } else {
            None
        }
    }
}

/// Naming a primitive and reading the name back gives the primitive.
pub proof fn lemma_primitive_name_roundtrip(p: ReprPrimitive)
    ensures
        spec_primitive_named(spec_primitive_name(p)) == Some(p),
{
    reveal_strlit("u8");
    reveal_strlit("i8");
    reveal_strlit("u16");
    reveal_strlit("i16");
    reveal_strlit("u32");
    reveal_strlit("i32");
    reveal_strlit("i64");
    reveal_strlit("u64");
    let names = seq!["u8"@, "i8"@, "u16"@, "i16"@, "u32"@, "i32"@, "i64"@, "u64"@];
    assert forall|a: int, b: int| 0 <= a < b < 8 implies names[a] != names[b] by {
        if names[a].len() == names[b].len() {
            if names[a][0] == names[b][0] {
                assert(names[a][1] != names[b][1] || names[a][2] != names[b][2]);
            }
        }
    }
    assert(names[0] != names[1]);
}

impl ReprError {
    /// The message that reports the error.
    pub fn message(&self) -> (s: &'static str)
        ensures
            s@ == spec_error_message(*self),
    {
        match self {
            ReprError::MultipleReprAttributes { .. } => "Multiple repr attributes",
            ReprError::ExpectedReprKind { .. } => "Expected repr kind",
            ReprError::UnrecognizedReprKind { .. } => "Unrecognized repr kind",
            ReprError::ExpectedComma { .. } => "expected `,`",
            ReprError::DuplicateKind { .. } => "Duplicate repr kind within attribute",
            ReprError::DuplicateAlignment { .. } => "Duplicate repr alignment within attribute",
        }
    }
}

/// The message of each error.
pub open spec fn spec_error_message(e: ReprError) -> Seq<char> {
    match e {
        ReprError::MultipleReprAttributes { .. } => "Multiple repr attributes"@,
        ReprError::ExpectedReprKind { .. } => "Expected repr kind"@,
        ReprError::UnrecognizedReprKind { .. } => "Unrecognized repr kind"@,
        ReprError::ExpectedComma { .. } => "expected `,`"@,
        ReprError::DuplicateKind { .. } => "Duplicate repr kind within attribute"@,
        ReprError::DuplicateAlignment { .. } => "Duplicate repr alignment within attribute"@,
    }
}

/// Reads the repr item that starts at `i`, returning it and the index just
/// past it.
fn parse_item(toks: &Vec<Tok>, i: usize) -> (r: Result<(ReprToken, usize), ReprError>)
    requires
        i < toks.len(),
    ensures
        match r {
            Ok((t, j)) => spec_parse_item(toks@, i as int) == Ok::<(ReprToken, int), ReprError>(
                (t, j as int),
            ),
            Err(e) => spec_parse_item(toks@, i as int) == Err::<(ReprToken, int), ReprError>(e),
        },
{
    match &toks[i] {
        Tok::Ident(s) => {
            let s = s.as_str();
            if let Some(p) = ReprPrimitive::from_name(s) {
                Ok((ReprToken::Kind(ReprKind::Primitive(p)), i + 1))
            } else if str_eq(s, "transparent") {
                Ok((ReprToken::Kind(ReprKind::Transparent), i + 1))
            } else if str_eq(s, "C") {
                Ok((ReprToken::Kind(ReprKind::C(None)), i + 1))
            } else if str_eq(s, "packed") {
                Ok((ReprToken::Alignment(ReprAlignment::Packed), i + 1))
            } else if str_eq(s, "aligned") {
                if !paren_group_at(toks, i + 1) {
                    Ok((ReprToken::Alignment(ReprAlignment::Aligned(1)), i + 1))
                } else {
                    let value = match &toks[i + 1] {
                        Tok::Group(_, inner) => alignment_value(inner),
                        _ => 1,
                    };
                    Ok((ReprToken::Alignment(ReprAlignment::Aligned(value)), i + 2))
                }
            } else {
                Err(ReprError::UnrecognizedReprKind { token: i })
            }
        },
        _ => Err(ReprError::ExpectedReprKind { token: i }),
    }
}

/// Tests whether the token at `i` is a parenthesized group.
fn paren_group_at(toks: &Vec<Tok>, i: usize) -> (r: bool)
    ensures
        r == is_paren_group_at(toks@, i as int),
{
    if i < toks.len() {
        match &toks[i] {
            Tok::Group(d, _) => match d {
                Delimiter::Parenthesis => true,
                _ => false,
            },
            _ => false,
        }
    } else {
        false
    }
}

/// The alignment that `aligned(...)` asks for.
fn alignment_value(inner: &Vec<Tok>) -> (v: u32)
    ensures
        v == spec_alignment_value(inner@),
{
    if inner.len() == 1 {
        match &inner[0] {
            Tok::Literal(text) => match parse_lit_int_u32(text.as_str()) {
                Some(v) => v,
                None => 1,
            },
            _ => 1,
        }
    } else {
        1
    }
}

/// Parses the tokens of a repr list into its items.
pub fn parse_repr_list(toks: &Vec<Tok>) -> (r: Result<Vec<SpannedReprToken>, ReprError>)
    ensures
        match r {
            Ok(items) => spec_parse_repr_list(toks@) == Ok::<Seq<SpannedReprToken>, ReprError>(
                items@,
            ),
            Err(e) => spec_parse_repr_list(toks@) == Err::<Seq<SpannedReprToken>, ReprError>(e),
        },
{
    let mut acc: Vec<SpannedReprToken> = Vec::new();
    let mut i: usize = 0;
    while i < toks.len()
        invariant
            i <= toks.len(),
            spec_parse_items(toks@, i as int, acc@) == spec_parse_repr_list(toks@),
        decreases toks.len() - i,
    {
        let (t, j) = match parse_item(toks, i) {
            Ok(x) => x,
            Err(e) => {
                return Err(e);
            },
        };
        acc.push(SpannedReprToken { start: i, token: t });
        if j >= toks.len() {
            return Ok(acc);
        } else if tok_is_punct(&toks[j], ',') {
            i = j + 1;
        } else {
            return Err(ReprError::ExpectedComma { token: j });
        }
    }
    Ok(acc)
}

impl Repr {
    /// Reads the repr that the attributes of an item declare.
    pub fn from_attributes(attrs: &Vec<Attr>) -> (r: Result<Repr, Vec<ReprError>>)
        ensures
            match r {
                Ok(repr) => spec_repr_from_attributes(attrs@) == Ok::<Repr, Seq<ReprError>>(repr),
                Err(errors) => spec_repr_from_attributes(attrs@) == Err::<Repr, Seq<ReprError>>(
                    errors@,
                ),
            },
    {
        let mut idx: Vec<usize> = Vec::new();
        let mut i: usize = 0;
        while i < attrs.len()
            invariant
                i <= attrs.len(),
                forall|k: int| 0 <= k < idx.len() ==> idx@[k] < attrs.len(),
                idx@.map_values(|x: usize| x as int) + spec_repr_attr_indices(attrs@, i as int)
                    == spec_repr_attr_indices(attrs@, 0),
            decreases attrs.len() - i,
        {
            let ghost before = idx@;
            if attr_path_is(&attrs[i], "repr") {
                idx.push(i);
                assert(idx@.map_values(|x: usize| x as int) =~= before.map_values(
                    |x: usize| x as int,
                ).push(i as int));
            }
            i = i + 1;
        }
        assert(idx@.map_values(|x: usize| x as int) =~= spec_repr_attr_indices(attrs@, 0));
        let ghost all = spec_repr_attr_indices(attrs@, 0);
        if idx.len() > 1 {
            let mut errors: Vec<ReprError> = Vec::new();
            let mut k: usize = 1;
            while k < idx.len()
                invariant
                    1 <= k <= idx.len(),
                    idx@.map_values(|x: usize| x as int) == all,
                    errors@.len() == k - 1,
                    forall|m: int|
                        0 <= m < errors@.len() ==> errors@[m] == (ReprError::MultipleReprAttributes {
                            attr: all[m + 1] as usize,
                        }),
                decreases idx.len() - k,
            {
                errors.push(ReprError::MultipleReprAttributes { attr: idx[k] });
                k = k + 1;
            }
            assert(errors@ =~= Seq::new(
                (all.len() - 1) as nat,
                |m: int| ReprError::MultipleReprAttributes { attr: all[m + 1] as usize },
            ));
            return Err(errors);
        }
        if idx.len() == 0 {
            return Ok(Repr { kind: None });
        }
        let toks = match &attrs[idx[0]].meta {
            AttrMeta::List(toks) => toks,
            _ => {
                return Ok(Repr { kind: None });
            },
        };
        let items = match parse_repr_list(toks) {
            Ok(items) => items,
            Err(e) => {
                let mut errors: Vec<ReprError> = Vec::new();
                errors.push(e);
                assert(errors@ =~= seq![e]);
                return Err(errors);
            },
        };
        let mut kind: Option<ReprKind> = None;
        let mut alignment: Option<ReprAlignment> = None;
        let mut errors: Vec<ReprError> = Vec::new();
        let ghost init = ReprState { kind: None, alignment: None, errors: Seq::empty() };
        let mut k: usize = 0;
        while k < items.len()
            invariant
                k <= items.len(),
                spec_repr_fold(
                    items@,
                    k as int,
                    ReprState { kind: kind, alignment: alignment, errors: errors@ },
                ) == spec_repr_fold(items@, 0, init),
            decreases items.len() - k,
        {
            let item = items[k];
            match item.token {
                ReprToken::Kind(new_kind) => {
                    match (kind, new_kind) {
                        (Some(ReprKind::C(None)), ReprKind::Primitive(p)) => {
                            kind = Some(ReprKind::C(Some(p)));
                        },
                        (Some(ReprKind::Primitive(p)), ReprKind::C(None)) => {
                            kind = Some(ReprKind::C(Some(p)));
                        },
                        (Some(_), _) => {
                            errors.push(ReprError::DuplicateKind { token: item.start });
                        },
                        (None, new_kind) => {
                            kind = Some(new_kind);
                        },
                    }
                },
                ReprToken::Alignment(a) => {
                    if alignment.is_some() {
                        errors.push(ReprError::DuplicateAlignment { token: item.start });
                    }
                    alignment = Some(a);
                },
            }
            k = k + 1;
        }
        if errors.len() > 0 {
            Err(errors)
        } else {
            Ok(Repr { kind })
        }
    }
}

} // verus!
