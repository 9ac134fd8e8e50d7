//! The inner attributes of an `ffi!` block: the declaration kind and ABI,
//! the symbol prefix, the failure mode and the enabled features.
use vstd::prelude::*;
use crate::tokens::{Attr, AttrMeta, SpecTok, Tok, attr_is_ident, attr_path_is, toks_view};
use crate::mineral::{render, render_range};
use crate::signature::opt_str_view;
use crate::text::{push_str, str_eq, string_of};
use crate::types::{copy_primitive_name, is_copy_primitive_name};
use crate::symbol::{SymbolTextError, spec_symbol_error_message, spec_validate_symbol, validate_symbol_text};

verus! {

// ---------------------------------------------------------------------------
// `extern` inside attributes.

/// The tokens with every identifier `extern` (at any depth) written as the
/// raw identifier `r#extern`, so that an attribute can hold it.
pub open spec fn spec_normalize_extern(s: Seq<SpecTok>) -> Seq<SpecTok>
    decreases s, 1int,
{
    Seq::new(s.len(), |i: int| if 0 <= i < s.len() { normalize_extern_tok(s[i]) } else { SpecTok::Punct(' ', false) })
}

/// One token with `extern` written as `r#extern`.
pub open spec fn normalize_extern_tok(t: SpecTok) -> SpecTok
    decreases t, 0int,
{
    match t {
        SpecTok::Ident(x) => if x == "extern"@ {
            SpecTok::Ident("r#extern"@)
        } else {
            t
        },
        SpecTok::Group(d, inner) => SpecTok::Group(d, spec_normalize_extern(inner)),
        _ => t,
    }
}

fn normalize_extern_tok_exec(t: &Tok) -> (r: Tok)
    ensures
        r@ == normalize_extern_tok(t@),
    decreases t, 0int,
{
    match t {
        Tok::Ident(x) => {
            if str_eq(x.as_str(), "extern") {
                let r = Tok::Ident(String::from_str("r#extern"));
                proof {
                    reveal_strlit("r#extern");
                }
                r
            } else {
                Tok::Ident(x.clone())
            }
        },
        Tok::Punct(c, j) => Tok::Punct(*c, *j),
        Tok::Literal(x) => Tok::Literal(x.clone()),
        Tok::Group(d, inner) => {
            proof {
                assert(decreases_to!(*t => (*t)->Group_1));
            }
            let v = normalize_extern_attr_tokens(inner);
            let r = Tok::Group(*d, v);
            assert(r@ == SpecTok::Group(*d, toks_view(v@)));
            r
        },
    }
}

/// Writes every identifier `extern` in the tokens as `r#extern`.
pub fn normalize_extern_attr_tokens(tokens: &Vec<Tok>) -> (r: Vec<Tok>)
    ensures
        toks_view(r@) == spec_normalize_extern(toks_view(tokens@)),
    decreases tokens, 1int,
{
    let ghost sv = toks_view(tokens@);
    let mut out: Vec<Tok> = Vec::new();
    let mut i: usize = 0;
    while i < tokens.len()
        invariant
            sv == toks_view(tokens@),
            i <= tokens@.len(),
            out@.len() == i,
            forall|j: int| 0 <= j < i ==> (#[trigger] out@[j])@ == normalize_extern_tok(sv[j]),
        decreases tokens@.len() - i,
    {
        proof {
            assert(decreases_to!(*tokens => tokens@));
            assert(decreases_to!(tokens@ => tokens@[i as int]));
        }
        assert(sv[i as int] == tokens@[i as int]@);
        out.push(normalize_extern_tok_exec(&tokens[i]));
        i = i + 1;
    }
    assert(toks_view(out@) =~= spec_normalize_extern(sv));
    out
}

// ---------------------------------------------------------------------------
// What `syn` makes of attribute text.

/// The one item `name(...)` that a list's tokens hold, as its name and the
/// tokens inside its group, where the tokens are exactly an identifier and a
/// delimited group.
pub open spec fn spec_single_list_item(toks: Seq<SpecTok>) -> Option<(Seq<char>, Seq<SpecTok>)> {
    if toks.len() == 2 && toks[0] is Ident && toks[1] is Group {
        Some((toks[0]->Ident_0, toks[1]->Group_1))
    } else {
        None
    }
}

/// The tokens whose string literal an attribute carries: those after `=`,
/// or those inside the one item of its list.
pub open spec fn spec_string_tokens(a: Attr) -> Option<Seq<SpecTok>> {
    match a.meta {
        AttrMeta::NameValue(toks) => Some(toks_view(toks@)),
        AttrMeta::List(toks) => match spec_single_list_item(toks_view(toks@)) {
            Some((_, inner)) => Some(inner),
            None => None,
        },
        AttrMeta::Path => None,
    }
}

/// What `syn` made of one attribute: the value of the string literal that
/// it read the attribute's string tokens as (see `spec_string_tokens`), and,
/// for a list, the message with which it refused the list's tokens as
/// comma-separated meta items.
#[derive(Debug, PartialEq, Eq)]
pub struct AttrReading {
    pub string: Option<String>,
    pub list_error: Option<String>,
}

/// The value of an attribute reading.
pub struct SpecAttrReading {
    pub string: Option<Seq<char>>,
    pub list_error: Option<Seq<char>>,
}

impl View for AttrReading {
    type V = SpecAttrReading;

    open spec fn view(&self) -> SpecAttrReading {
        SpecAttrReading { string: opt_str_view(self.string), list_error: opt_str_view(self.list_error) }
    }
}

/// The values of a sequence of attribute readings.
pub open spec fn readings_view(s: Seq<AttrReading>) -> Seq<SpecAttrReading> {
    Seq::new(s.len(), |i: int| s[i]@)
}

/// The reading of the attribute at `i`; nothing read where there is none.
pub open spec fn reading_at(rds: Seq<SpecAttrReading>, i: int) -> SpecAttrReading {
    if 0 <= i < rds.len() {
        rds[i]
    } else {
        SpecAttrReading { string: None, list_error: None }
    }
}

/// Whether `value` is a possible outcome of `syn` reading the text as one
/// string literal: its value, or `None` where it refuses the text.
pub uninterp spec fn lit_str_outcome(text: Seq<char>, value: Option<Seq<char>>) -> bool;

/// Whether `error` is a possible outcome of `syn` reading the text as
/// comma-separated meta items: `None` where it accepts them, else its
/// message.
pub uninterp spec fn meta_list_outcome(text: Seq<char>, error: Option<Seq<char>>) -> bool;

/// Calls `syn::parse_str::<syn::LitStr>` and gives the literal's value. The
/// outcome is only said to be a possible one for the text: which lexer runs
/// (the compiler's inside a macro, `proc-macro2`'s outside) is not a
/// function of the text.
#[verifier::external_body]
fn syn_lit_str(text: &str) -> (r: Option<String>)
    ensures
        lit_str_outcome(text@, opt_str_view(r)),
{
    syn::parse_str::<syn::LitStr>(text).ok().map(|l| l.value())
}

/// Calls `syn`'s parser of comma-separated `syn::Meta` items
/// (`Punctuated::parse_terminated`) and gives the message of the error with
/// which it refuses the text. The outcome is only said to be a possible one
/// for the text.
#[verifier::external_body]
fn syn_meta_list_error(text: &str) -> (r: Option<String>)
    ensures
        meta_list_outcome(text@, opt_str_view(r)),
{
    let parser = syn::punctuated::Punctuated::<syn::Meta, syn::token::Comma>::parse_terminated;
    syn::parse::Parser::parse_str(parser, text).err().map(|e| e.to_string())
}

/// Whether a reading of an attribute is one that `syn` may give: the
/// string is what it reads the attribute's string tokens as (see
/// `spec_string_tokens`), as rendered text; for a list, the error is what it
/// says of the list's tokens as meta items; nothing else is read.
pub open spec fn reading_fits(a: Attr, rd: SpecAttrReading) -> bool {
    &&& match spec_string_tokens(a) {
        Some(t) => lit_str_outcome(render(t), rd.string),
        None => rd.string is None,
    }
    &&& match a.meta {
        AttrMeta::List(toks) => meta_list_outcome(render(toks_view(toks@)), rd.list_error),
        _ => rd.list_error is None,
    }
}

/// Whether the readings are ones that `syn` may give of the attributes, one
/// per attribute.
pub open spec fn readings_fit(attrs: Seq<Attr>, rds: Seq<SpecAttrReading>) -> bool {
    rds.len() == attrs.len() && forall|i: int| 0 <= i < attrs.len() ==> #[trigger] reading_fits(attrs[i], rds[i])
}

/// Reads one attribute through `syn`: the string literal of its string
/// tokens, and, for a list, whether its tokens are meta items.
fn read_attr(a: &Attr) -> (r: AttrReading)
    ensures
        reading_fits(*a, r@),
{
    match &a.meta {
        AttrMeta::NameValue(toks) => {
            let text = render_range(toks, 0, toks.len());
            assert(toks_view(toks@).subrange(0, toks@.len() as int) =~= toks_view(toks@));
            AttrReading { string: syn_lit_str(text.as_str()), list_error: None }
        },
        AttrMeta::List(toks) => {
            let text = render_range(toks, 0, toks.len());
            assert(toks_view(toks@).subrange(0, toks@.len() as int) =~= toks_view(toks@));
            let list_error = syn_meta_list_error(text.as_str());
            let mut string: Option<String> = None;
            if toks.len() == 2 {
                assert(toks_view(toks@)[0] == toks@[0]@);
                assert(toks_view(toks@)[1] == toks@[1]@);
                if let (Tok::Ident(_), Tok::Group(_, inner)) = (&toks[0], &toks[1]) {
                    let t = render_range(inner, 0, inner.len());
                    assert(toks_view(inner@).subrange(0, inner@.len() as int) =~= toks_view(inner@));
                    string = syn_lit_str(t.as_str());
                }
            }
            AttrReading { string, list_error }
        },
        AttrMeta::Path => AttrReading { string: None, list_error: None },
    }
}

/// What `syn` makes of each of the attributes, one reading per attribute,
/// for the functions below that take the readings: each is a reading that
/// `syn` may give of the text that `reading_fits` names.
pub fn read_attrs(attrs: &Vec<Attr>) -> (r: Vec<AttrReading>)
    ensures
        readings_fit(attrs@, readings_view(r@)),
{
    let mut out: Vec<AttrReading> = Vec::new();
    let mut i: usize = 0;
    while i < attrs.len()
        invariant
            i <= attrs@.len(),
            out@.len() == i,
            forall|j: int| 0 <= j < i ==> #[trigger] reading_fits(attrs@[j], out@[j]@),
        decreases attrs@.len() - i,
    {
        out.push(read_attr(&attrs[i]));
        i = i + 1;
    }
    assert(readings_view(out@).len() == attrs@.len());
    assert forall|j: int| 0 <= j < attrs@.len() implies #[trigger] reading_fits(attrs@[j], readings_view(out@)[j]) by {
        assert(readings_view(out@)[j] == out@[j]@);
    }
    out
}

/// A copy of the reading of the attribute at `i`; an empty one where there
/// is none.
fn reading_of(readings: &Vec<AttrReading>, i: usize) -> (r: AttrReading)
    ensures
        r@ == reading_at(readings_view(readings@), i as int),
{
    if i < readings.len() {
        let rd = &readings[i];
        AttrReading { string: rd.string.clone(), list_error: rd.list_error.clone() }
    } else {
        AttrReading { string: None, list_error: None }
    }
}

// ---------------------------------------------------------------------------
// What the inner attributes say.

/// Whether the block exports Rust items or declares foreign ones.
#[derive(Debug, Clone, Copy, PartialEq, Eq, Structural)]
pub enum DeclKind {
    Export,
    Extern,
}

/// What a generated wrapper does when the call fails.
#[derive(Debug, Clone, Copy, PartialEq, Eq, Structural)]
pub enum FailureMode {
    Panic,
    Error,
}

/// The optional features that the block enables.
#[derive(Debug, Clone, Copy, PartialEq, Eq, Structural)]
pub struct MacroFeatures {
    pub extern_types: bool,
}

/// Why the inner attributes were refused, with the position of the attribute
/// concerned (in the list as handed to the function that refused it) and,
/// for a feature, the position of the item in its list.
#[derive(Debug, PartialEq, Eq)]
pub enum FfiAttrError {
    Decl { attr: usize },
    DuplicateDecl { attr: usize },
    MissingDecl,
    Prefix { attr: usize },
    DuplicatePrefix { attr: usize },
    Failure { attr: usize },
    DuplicateFailure { attr: usize },
    FeatureNotList { attr: usize },
    FeatureArgs { attr: usize, message: String },
    FeatureName { attr: usize, item: usize },
    UnsupportedFeature { attr: usize, item: usize },
    DuplicateFeature { attr: usize, item: usize },
}

/// The value of an error about the inner attributes.
pub enum SpecFfiAttrError {
    Decl { attr: int },
    DuplicateDecl { attr: int },
    MissingDecl,
    Prefix { attr: int },
    DuplicatePrefix { attr: int },
    Failure { attr: int },
    DuplicateFailure { attr: int },
    FeatureNotList { attr: int },
    FeatureArgs { attr: int, message: Seq<char> },
    FeatureName { attr: int, item: int },
    UnsupportedFeature { attr: int, item: int },
    DuplicateFeature { attr: int, item: int },
}

impl View for FfiAttrError {
    type V = SpecFfiAttrError;

    open spec fn view(&self) -> SpecFfiAttrError {
        match self {
            FfiAttrError::Decl { attr } => SpecFfiAttrError::Decl { attr: *attr as int },
            FfiAttrError::DuplicateDecl { attr } => SpecFfiAttrError::DuplicateDecl { attr: *attr as int },
            FfiAttrError::MissingDecl => SpecFfiAttrError::MissingDecl,
            FfiAttrError::Prefix { attr } => SpecFfiAttrError::Prefix { attr: *attr as int },
            FfiAttrError::DuplicatePrefix { attr } => SpecFfiAttrError::DuplicatePrefix { attr: *attr as int },
            FfiAttrError::Failure { attr } => SpecFfiAttrError::Failure { attr: *attr as int },
            FfiAttrError::DuplicateFailure { attr } => SpecFfiAttrError::DuplicateFailure { attr: *attr as int },
            FfiAttrError::FeatureNotList { attr } => SpecFfiAttrError::FeatureNotList { attr: *attr as int },
            FfiAttrError::FeatureArgs { attr, message } => SpecFfiAttrError::FeatureArgs {
                attr: *attr as int,
                message: message@,
            },
            FfiAttrError::FeatureName { attr, item } => SpecFfiAttrError::FeatureName {
                attr: *attr as int,
                item: *item as int,
            },
            FfiAttrError::UnsupportedFeature { attr, item } => SpecFfiAttrError::UnsupportedFeature {
                attr: *attr as int,
                item: *item as int,
            },
            FfiAttrError::DuplicateFeature { attr, item } => SpecFfiAttrError::DuplicateFeature {
                attr: *attr as int,
                item: *item as int,
            },
        }
    }
}

/// The message of an error about the inner attributes.
pub open spec fn spec_ffi_attr_message(e: SpecFfiAttrError) -> Seq<char> {
    match e {
        SpecFfiAttrError::Decl { .. } => "expected `#![unsafe(export(\"...\"))]` or `#![unsafe(extern(\"...\"))]`"@,
        SpecFfiAttrError::DuplicateDecl { .. } => "duplicate declaration kind attribute"@,
        SpecFfiAttrError::MissingDecl => "missing `#![unsafe(export(\"...\"))]` or `#![unsafe(extern(\"...\"))]`"@,
        SpecFfiAttrError::Prefix { .. } => "Expected `#![symbol_prefix = \"...\"]`"@,
        SpecFfiAttrError::DuplicatePrefix { .. } => "Duplicate `#![symbol_prefix = \"...\"]`"@,
        SpecFfiAttrError::Failure { .. } => "Expected `#![failure = \"panic\"]` or `#![failure = \"error\"]`"@,
        SpecFfiAttrError::DuplicateFailure { .. } => "Duplicate `#![failure = \"...\"]`"@,
        SpecFfiAttrError::FeatureNotList { .. } => "Expected `#![feature(...)]`"@,
        SpecFfiAttrError::FeatureArgs { message, .. } => message,
        SpecFfiAttrError::FeatureName { .. } => "Expected feature name in `#![feature(...)]`"@,
        SpecFfiAttrError::UnsupportedFeature { .. } => "Only `extern_types` is supported"@,
        SpecFfiAttrError::DuplicateFeature { .. } => "Duplicate `extern_types` feature"@,
    }
}

impl FfiAttrError {
    /// The message of the error.
    pub fn message(&self) -> (s: String)
        ensures
            s@ == spec_ffi_attr_message(self@),
    {
        match self {
            FfiAttrError::Decl { .. } => String::from_str(
                "expected `#![unsafe(export(\"...\"))]` or `#![unsafe(extern(\"...\"))]`",
            ),
            FfiAttrError::DuplicateDecl { .. } => String::from_str("duplicate declaration kind attribute"),
            FfiAttrError::MissingDecl => String::from_str(
                "missing `#![unsafe(export(\"...\"))]` or `#![unsafe(extern(\"...\"))]`",
            ),
            FfiAttrError::Prefix { .. } => String::from_str("Expected `#![symbol_prefix = \"...\"]`"),
            FfiAttrError::DuplicatePrefix { .. } => String::from_str("Duplicate `#![symbol_prefix = \"...\"]`"),
            FfiAttrError::Failure { .. } => String::from_str(
                "Expected `#![failure = \"panic\"]` or `#![failure = \"error\"]`",
            ),
            FfiAttrError::DuplicateFailure { .. } => String::from_str("Duplicate `#![failure = \"...\"]`"),
            FfiAttrError::FeatureNotList { .. } => String::from_str("Expected `#![feature(...)]`"),
            FfiAttrError::FeatureArgs { message, .. } => message.clone(),
            FfiAttrError::FeatureName { .. } => String::from_str("Expected feature name in `#![feature(...)]`"),
            FfiAttrError::UnsupportedFeature { .. } => String::from_str("Only `extern_types` is supported"),
            FfiAttrError::DuplicateFeature { .. } => String::from_str("Duplicate `extern_types` feature"),
        }
    }
}

/// The attributes of the first `n` whose path is not the identifier `name`,
/// in their order.
pub open spec fn spec_kept_upto(attrs: Seq<Attr>, name: Seq<char>, n: int) -> Seq<Attr>
    decreases n,
{
    if n <= 0 {
        Seq::empty()
    } else if attr_is_ident(attrs[n - 1], name) {
        spec_kept_upto(attrs, name, n - 1)
    } else {
        spec_kept_upto(attrs, name, n - 1).push(attrs[n - 1])
    }
}

/// The attributes whose path is not the identifier `name`, in their order.
pub open spec fn spec_kept(attrs: Seq<Attr>, name: Seq<char>) -> Seq<Attr> {
    spec_kept_upto(attrs, name, attrs.len() as int)
}

// ---------------------------------------------------------------------------
// `#![unsafe(export("abi"))]` and `#![unsafe(extern("abi"))]`.

/// The kind and ABI string that one `#![unsafe(...)]` attribute declares,
/// given what `syn` read of it: its list is one `export(...)` or
/// `r#extern(...)` item, whose tokens `syn` read as a string literal.
pub open spec fn spec_decl_of(a: Attr, rd: SpecAttrReading) -> Option<(DeclKind, Seq<char>)> {
    match a.meta {
        AttrMeta::List(toks) => match spec_single_list_item(toks_view(toks@)) {
            Some((name, _)) => if name == "export"@ || name == "r#extern"@ {
                let kind = if name == "export"@ {
                    DeclKind::Export
                } else {
                    DeclKind::Extern
                };
                match rd.string {
                    Some(abi) => Some((kind, abi)),
                    None => None,
                }
            } else {
                None
            },
            None => None,
        },
        _ => None,
    }
}

/// The value of a declaration read from one attribute.
pub open spec fn decl_view(d: Option<(DeclKind, String)>) -> Option<(DeclKind, Seq<char>)> {
    match d {
        Some((k, abi)) => Some((k, abi@)),
        None => None,
    }
}

/// Reads one `#![unsafe(...)]` attribute, given what `syn` read of it.
fn decl_of(a: &Attr, rd: &AttrReading) -> (r: Option<(DeclKind, String)>)
    ensures
        decl_view(r) == spec_decl_of(*a, rd@),
{
    match &a.meta {
        AttrMeta::List(toks) => {
            if toks.len() != 2 {
                return None;
            }
            assert(toks_view(toks@)[0] == toks@[0]@);
            assert(toks_view(toks@)[1] == toks@[1]@);
            let name = match (&toks[0], &toks[1]) {
                (Tok::Ident(name), Tok::Group(_, _)) => name,
                _ => {
                    return None;
                },
            };
            proof {
                reveal_strlit("export");
                reveal_strlit("r#extern");
            }
            let kind = if str_eq(name.as_str(), "export") {
                DeclKind::Export
            } else if str_eq(name.as_str(), "r#extern") {
                DeclKind::Extern
            } else {
                return None;
            };
            match &rd.string {
                Some(abi) => Some((kind, abi.clone())),
                None => None,
            }
        },
        _ => None,
    }
}

/// What the first `n` attributes say of the declaration: nothing, where no
/// `#![unsafe(...)]` is among them; else what the last one says, or that
/// there was more than one.
pub open spec fn spec_decl_scan(attrs: Seq<Attr>, rds: Seq<SpecAttrReading>, n: int) -> Option<
    Result<(DeclKind, Seq<char>), SpecFfiAttrError>,
>
    decreases n,
{
    if n <= 0 {
        None
    } else {
        let before = spec_decl_scan(attrs, rds, n - 1);
        let a = attrs[n - 1];
        if !attr_is_ident(a, "unsafe"@) {
            before
        } else if before is Some {
            Some(Err(SpecFfiAttrError::DuplicateDecl { attr: n - 1 }))
        } else {
            match spec_decl_of(a, reading_at(rds, n - 1)) {
                Some(d) => Some(Ok(d)),
                None => Some(Err(SpecFfiAttrError::Decl { attr: n - 1 })),
            }
        }
    }
}

/// The declaration kind and ABI that the attributes state, or why they
/// state none.
pub open spec fn spec_take_decl(attrs: Seq<Attr>, rds: Seq<SpecAttrReading>) -> Result<(DeclKind, Seq<char>), SpecFfiAttrError> {
    match spec_decl_scan(attrs, rds, attrs.len() as int) {
        Some(r) => r,
        None => Err(SpecFfiAttrError::MissingDecl),
    }
}

/// The value of a declaration result.
pub open spec fn decl_result_view(r: Result<(DeclKind, String), FfiAttrError>) -> Result<
    (DeclKind, Seq<char>),
    SpecFfiAttrError,
> {
    match r {
        Ok((k, abi)) => Ok((k, abi@)),
        Err(e) => Err(e@),
    }
}

/// Removes every `#![unsafe(...)]` attribute and reads the one declaration
/// they must hold: its kind and ABI string. A second such attribute, one
/// that is malformed, or none at all is an error; the others stay, in their
/// order, whatever the outcome.
pub fn take_decl_attr(attrs: &mut Vec<Attr>, readings: &Vec<AttrReading>) -> (r: Result<(DeclKind, String), FfiAttrError>)
    ensures
        decl_result_view(r) == spec_take_decl(old(attrs)@, readings_view(readings@)),
        final(attrs)@ == spec_kept(old(attrs)@, "unsafe"@),
{
    let mut rest: Vec<Attr> = Vec::new();
    std::mem::swap(&mut rest, attrs);
    let ghost orig = rest@;
    let total = rest.len();
    let mut kept: Vec<Attr> = Vec::new();
    let mut decl: Option<Result<(DeclKind, String), FfiAttrError>> = None;
    let ghost rv = readings_view(readings@);
    let mut i: usize = 0;
    while rest.len() > 0
        invariant
            rv == readings_view(readings@),
            orig.len() == total,
            orig.len() == i + rest@.len(),
            rest@ == orig.subrange(i as int, orig.len() as int),
            kept@ == spec_kept_upto(orig, "unsafe"@, i as int),
            match decl {
                None => spec_decl_scan(orig, rv, i as int) is None,
                Some(d) => spec_decl_scan(orig, rv, i as int) == Some(decl_result_view(d)),
            },
        decreases rest@.len(),
    {
        let a = rest.remove(0);
        assert(a == orig[i as int]);
        proof {
            reveal_strlit("unsafe");
        }
        if attr_path_is(&a, "unsafe") {
            if decl.is_some() {
                decl = Some(Err(FfiAttrError::DuplicateDecl { attr: i }));
            } else {
                decl = Some(
                    match decl_of(&a, &reading_of(readings, i)) {
                        Some(d) => Ok(d),
                        None => Err(FfiAttrError::Decl { attr: i }),
                    },
                );
            }
        } else {
            kept.push(a);
        }
        i = i + 1;
        assert(rest@ =~= orig.subrange(i as int, orig.len() as int));
    }
    *attrs = kept;
    match decl {
        Some(d) => d,
        None => Err(FfiAttrError::MissingDecl),
    }
}

// ---------------------------------------------------------------------------
// `#![symbol_prefix = "..."]` and `#![failure = "..."]`.

/// The string that a `name = "..."` attribute holds, given what `syn` read
/// of it: its value tokens read as a string literal.
pub open spec fn spec_name_value_str(a: Attr, rd: SpecAttrReading) -> Option<Seq<char>> {
    match a.meta {
        AttrMeta::NameValue(_) => rd.string,
        _ => None,
    }
}

/// Reads the string literal of a `name = "..."` attribute.
fn name_value_str(a: &Attr, rd: &AttrReading) -> (r: Option<String>)
    ensures
        opt_str_view(r) == spec_name_value_str(*a, rd@),
{
    match &a.meta {
        AttrMeta::NameValue(_) => rd.string.clone(),
        _ => None,
    }
}

/// What the first `n` attributes say of the symbol prefix: the prefix of the
/// one `#![symbol_prefix = "..."]` among them, if any, or the first such
/// attribute that is malformed or comes a second time.
pub open spec fn spec_prefix_scan(attrs: Seq<Attr>, rds: Seq<SpecAttrReading>, n: int) -> Result<Option<Seq<char>>, SpecFfiAttrError>
    decreases n,
{
    if n <= 0 {
        Ok(None)
    } else {
        match spec_prefix_scan(attrs, rds, n - 1) {
            Err(e) => Err(e),
            Ok(p) => {
                let a = attrs[n - 1];
                if !attr_is_ident(a, "symbol_prefix"@) {
                    Ok(p)
                } else {
                    match spec_name_value_str(a, reading_at(rds, n - 1)) {
                        None => Err(SpecFfiAttrError::Prefix { attr: n - 1 }),
                        Some(v) => if p is Some {
                            Err(SpecFfiAttrError::DuplicatePrefix { attr: n - 1 })
                        } else {
                            Ok(Some(v))
                        },
                    }
                }
            },
        }
    }
}

/// Once the scan of the symbol prefix has failed, it stays failed.
proof fn lemma_prefix_scan_err(attrs: Seq<Attr>, rds: Seq<SpecAttrReading>, k: int, n: int)
    requires
        k <= n,
        spec_prefix_scan(attrs, rds, k) is Err,
    ensures
        spec_prefix_scan(attrs, rds, n) == spec_prefix_scan(attrs, rds, k),
    decreases n - k,
{
    if k < n {
        lemma_prefix_scan_err(attrs, rds, k, n - 1);
    }
}

/// The value of a symbol-prefix result.
pub open spec fn prefix_result_view(r: Result<Option<String>, FfiAttrError>) -> Result<
    Option<Seq<char>>,
    SpecFfiAttrError,
> {
    match r {
        Ok(p) => Ok(opt_str_view(p)),
        Err(e) => Err(e@),
    }
}

/// The symbol prefix of a block: the one that its `#![symbol_prefix]`
/// names, else the name of the crate being compiled where the build gives
/// one, else `co3`.
pub open spec fn spec_symbol_prefix(explicit: Option<Seq<char>>, crate_name: Option<Seq<char>>) -> Seq<char> {
    match explicit {
        Some(p) => p,
        None => match crate_name {
            Some(n) => n,
            None => "co3"@,
        },
    }
}

/// The symbol prefix of a block (see `spec_symbol_prefix`).
pub fn symbol_prefix_or_default(explicit: Option<String>, crate_name: Option<String>) -> (r: String)
    ensures
        r@ == spec_symbol_prefix(opt_str_view(explicit), opt_str_view(crate_name)),
{
    match explicit {
        Some(p) => p,
        None => match crate_name {
            Some(n) => n,
            None => String::from_str("co3"),
        },
    }
}

/// Removes the `#![symbol_prefix = "..."]` attribute and gives its string,
/// or `None` where there is none. A malformed or second such attribute is an
/// error, and then no attribute is left; else the others stay in order.
pub fn parse_symbol_prefix_attr(attrs: &mut Vec<Attr>, readings: &Vec<AttrReading>) -> (r: Result<Option<String>, FfiAttrError>)
    ensures
        prefix_result_view(r) == spec_prefix_scan(old(attrs)@, readings_view(readings@), old(attrs)@.len() as int),
        r is Ok ==> final(attrs)@ == spec_kept(old(attrs)@, "symbol_prefix"@),
        r is Err ==> final(attrs)@.len() == 0,
{
    let mut rest: Vec<Attr> = Vec::new();
    std::mem::swap(&mut rest, attrs);
    let ghost orig = rest@;
    let total = rest.len();
    let mut kept: Vec<Attr> = Vec::new();
    let mut prefix: Option<String> = None;
    let ghost rv = readings_view(readings@);
    let mut i: usize = 0;
    while rest.len() > 0
        invariant
            rv == readings_view(readings@),
            orig.len() == total,
            orig.len() == i + rest@.len(),
            rest@ == orig.subrange(i as int, orig.len() as int),
            attrs@.len() == 0,
            orig == old(attrs)@,
            kept@ == spec_kept_upto(orig, "symbol_prefix"@, i as int),
            spec_prefix_scan(orig, rv, i as int) == Ok::<Option<Seq<char>>, SpecFfiAttrError>(opt_str_view(prefix)),
        decreases rest@.len(),
    {
        let a = rest.remove(0);
        assert(a == orig[i as int]);
        proof {
            reveal_strlit("symbol_prefix");
        }
        if attr_path_is(&a, "symbol_prefix") {
            match name_value_str(&a, &reading_of(readings, i)) {
                None => {
                    proof {
                            lemma_prefix_scan_err(orig, rv, i + 1, orig.len() as int);
                        }
                        return Err(FfiAttrError::Prefix { attr: i });
                },
                Some(v) => {
                    if prefix.is_some() {
                        proof {
                            lemma_prefix_scan_err(orig, rv, i + 1, orig.len() as int);
                        }
                        return Err(FfiAttrError::DuplicatePrefix { attr: i });
                    }
                    prefix = Some(v);
                },
            }
        } else {
            kept.push(a);
        }
        i = i + 1;
        assert(rest@ =~= orig.subrange(i as int, orig.len() as int));
    }
    *attrs = kept;
    Ok(prefix)
}

/// The failure mode that a `#![failure = "..."]` attribute names, if it is
/// well formed.
pub open spec fn spec_failure_of(a: Attr, rd: SpecAttrReading) -> Option<FailureMode> {
    match spec_name_value_str(a, rd) {
        Some(v) => if v == "panic"@ {
            Some(FailureMode::Panic)
        } else if v == "error"@ {
            Some(FailureMode::Error)
        } else {
            None
        },
        None => None,
    }
}

/// What the first `n` attributes say of the failure mode: the mode of the
/// one `#![failure = "..."]` among them, if any, or the first such attribute
/// that is malformed or comes a second time.
pub open spec fn spec_failure_scan(attrs: Seq<Attr>, rds: Seq<SpecAttrReading>, n: int) -> Result<Option<FailureMode>, SpecFfiAttrError>
    decreases n,
{
    if n <= 0 {
        Ok(None)
    } else {
        match spec_failure_scan(attrs, rds, n - 1) {
            Err(e) => Err(e),
            Ok(m) => {
                let a = attrs[n - 1];
                if !attr_is_ident(a, "failure"@) {
                    Ok(m)
                } else {
                    match spec_failure_of(a, reading_at(rds, n - 1)) {
                        None => Err(SpecFfiAttrError::Failure { attr: n - 1 }),
                        Some(f) => if m is Some {
                            Err(SpecFfiAttrError::DuplicateFailure { attr: n - 1 })
                        } else {
                            Ok(Some(f))
                        },
                    }
                }
            },
        }
    }
}

/// Once the scan of the failure mode has failed, it stays failed.
proof fn lemma_failure_scan_err(attrs: Seq<Attr>, rds: Seq<SpecAttrReading>, k: int, n: int)
    requires
        k <= n,
        spec_failure_scan(attrs, rds, k) is Err,
    ensures
        spec_failure_scan(attrs, rds, n) == spec_failure_scan(attrs, rds, k),
    decreases n - k,
{
    if k < n {
        lemma_failure_scan_err(attrs, rds, k, n - 1);
    }
}

/// The failure mode that the attributes state: the one named, else
/// `Panic`.
pub open spec fn spec_failure_mode(attrs: Seq<Attr>, rds: Seq<SpecAttrReading>) -> Result<FailureMode, SpecFfiAttrError> {
    match spec_failure_scan(attrs, rds, attrs.len() as int) {
        Ok(Some(f)) => Ok(f),
        Ok(None) => Ok(FailureMode::Panic),
        Err(e) => Err(e),
    }
}

/// The value of a failure-mode result.
pub open spec fn failure_result_view(r: Result<FailureMode, FfiAttrError>) -> Result<FailureMode, SpecFfiAttrError> {
    match r {
        Ok(f) => Ok(f),
        Err(e) => Err(e@),
    }
}

/// Reads one `#![failure = "..."]` attribute.
fn failure_of(a: &Attr, rd: &AttrReading) -> (r: Option<FailureMode>)
    ensures
        r == spec_failure_of(*a, rd@),
{
    proof {
        reveal_strlit("panic");
        reveal_strlit("error");
    }
    match name_value_str(a, rd) {
        Some(v) => if str_eq(v.as_str(), "panic") {
            Some(FailureMode::Panic)
        } else if str_eq(v.as_str(), "error") {
            Some(FailureMode::Error)
        } else {
            None
        },
        None => None,
    }
}

/// Removes the `#![failure = "panic"]` or `#![failure = "error"]` attribute
/// and gives the mode it names, `Panic` where there is none. A malformed or
/// second such attribute is an error, and then no attribute is left; else
/// the others stay in order.
pub fn parse_failure_attr(attrs: &mut Vec<Attr>, readings: &Vec<AttrReading>) -> (r: Result<FailureMode, FfiAttrError>)
    ensures
        failure_result_view(r) == spec_failure_mode(old(attrs)@, readings_view(readings@)),
        r is Ok ==> final(attrs)@ == spec_kept(old(attrs)@, "failure"@),
        r is Err ==> final(attrs)@.len() == 0,
{
    let mut rest: Vec<Attr> = Vec::new();
    std::mem::swap(&mut rest, attrs);
    let ghost orig = rest@;
    let total = rest.len();
    let mut kept: Vec<Attr> = Vec::new();
    let mut mode: Option<FailureMode> = None;
    let ghost rv = readings_view(readings@);
    let mut i: usize = 0;
    while rest.len() > 0
        invariant
            rv == readings_view(readings@),
            orig.len() == total,
            orig.len() == i + rest@.len(),
            rest@ == orig.subrange(i as int, orig.len() as int),
            attrs@.len() == 0,
            orig == old(attrs)@,
            kept@ == spec_kept_upto(orig, "failure"@, i as int),
            spec_failure_scan(orig, rv, i as int) == Ok::<Option<FailureMode>, SpecFfiAttrError>(mode),
        decreases rest@.len(),
    {
        let a = rest.remove(0);
        assert(a == orig[i as int]);
        proof {
            reveal_strlit("failure");
        }
        if attr_path_is(&a, "failure") {
            match failure_of(&a, &reading_of(readings, i)) {
                None => {
                    proof {
                            lemma_failure_scan_err(orig, rv, i + 1, orig.len() as int);
                        }
                        return Err(FfiAttrError::Failure { attr: i });
                },
                Some(f) => {
                    if mode.is_some() {
                        proof {
                            lemma_failure_scan_err(orig, rv, i + 1, orig.len() as int);
                        }
                        return Err(FfiAttrError::DuplicateFailure { attr: i });
                    }
                    mode = Some(f);
                },
            }
        } else {
            kept.push(a);
        }
        i = i + 1;
        assert(rest@ =~= orig.subrange(i as int, orig.len() as int));
    }
    *attrs = kept;
    match mode {
        Some(f) => Ok(f),
        None => Ok(FailureMode::Panic),
    }
}

// ---------------------------------------------------------------------------
// `#![feature(...)]`.

/// The comma-separated items of the tokens up to `n`: the items finished so
/// far and the tokens of the one being read.
pub open spec fn spec_split_upto(s: Seq<SpecTok>, n: int) -> (Seq<Seq<SpecTok>>, Seq<SpecTok>)
    decreases n,
{
    if n <= 0 {
        (Seq::empty(), Seq::empty())
    } else {
        let (done, cur) = spec_split_upto(s, n - 1);
        if s[n - 1] matches SpecTok::Punct(c, _) && c == ',' {
            (done.push(cur), Seq::empty())
        } else {
            (done, cur.push(s[n - 1]))
        }
    }
}

/// The comma-separated items of a list's tokens; a trailing comma ends the
/// last item.
pub open spec fn spec_list_items(s: Seq<SpecTok>) -> Seq<Seq<SpecTok>> {
    let (done, cur) = spec_split_upto(s, s.len() as int);
    if cur.len() == 0 {
        done
    } else {
        done.push(cur)
    }
}

/// The values of a sequence of token lists.
pub open spec fn tok_lists_view(s: Seq<Vec<Tok>>) -> Seq<Seq<SpecTok>> {
    Seq::new(s.len(), |i: int| toks_view(s[i]@))
}

/// Splits a list's tokens into its comma-separated items.
fn list_items(toks: &Vec<Tok>) -> (r: Vec<Vec<Tok>>)
    ensures
        tok_lists_view(r@) == spec_list_items(toks_view(toks@)),
{
    let ghost sv = toks_view(toks@);
    let mut done: Vec<Vec<Tok>> = Vec::new();
    let mut cur: Vec<Tok> = Vec::new();
    let mut i: usize = 0;
    while i < toks.len()
        invariant
            i <= toks@.len(),
            sv == toks_view(toks@),
            (tok_lists_view(done@), toks_view(cur@)) == spec_split_upto(sv, i as int),
        decreases toks@.len() - i,
    {
        assert(sv[i as int] == toks@[i as int]@);
        let ghost before_done = done@;
        let ghost before_cur = cur@;
        let is_comma = match &toks[i] {
            Tok::Punct(c, _) => *c == ',',
            _ => false,
        };
        if is_comma {
            let mut item: Vec<Tok> = Vec::new();
            std::mem::swap(&mut item, &mut cur);
            done.push(item);
            assert(tok_lists_view(done@) =~= tok_lists_view(before_done).push(toks_view(before_cur)));
            assert(toks_view(cur@) =~= Seq::<SpecTok>::empty());
        } else {
            let t = crate::tokens::clone_tok(&toks[i]);
            cur.push(t);
            assert(toks_view(cur@) =~= toks_view(before_cur).push(sv[i as int]));
        }
        i = i + 1;
    }
    if cur.len() > 0 {
        let ghost before_done = done@;
        done.push(cur);
        assert(tok_lists_view(done@) =~= tok_lists_view(before_done).push(toks_view(cur@)));
    }
    done
}

/// The feature that an item names: a bare identifier.
pub open spec fn spec_feature_name(item: Seq<SpecTok>) -> Option<Seq<char>> {
    if item.len() == 1 && item[0] is Ident {
        Some(item[0]->Ident_0)
    } else {
        None
    }
}

/// What the first `k` items of the list of the attribute at `attr` do to the
/// enabled state `on` of `extern_types`: each must be a bare identifier, the
/// only one supported is `extern_types`, and it may be named once.
pub open spec fn spec_feature_items(items: Seq<Seq<SpecTok>>, k: int, on: bool, attr: int) -> Result<
    bool,
    SpecFfiAttrError,
>
    decreases k,
{
    if k <= 0 {
        Ok(on)
    } else {
        match spec_feature_items(items, k - 1, on, attr) {
            Err(e) => Err(e),
            Ok(now) => match spec_feature_name(items[k - 1]) {
                Some(x) => if x != "extern_types"@ {
                    Err(SpecFfiAttrError::UnsupportedFeature { attr, item: k - 1 })
                } else if now {
                    Err(SpecFfiAttrError::DuplicateFeature { attr, item: k - 1 })
                } else {
                    Ok(true)
                },
                None => Err(SpecFfiAttrError::FeatureName { attr, item: k - 1 }),
            },
        }
    }
}

/// What one `#![feature(...)]` attribute at `attr` does to the enabled state
/// `on`, given what `syn` read of it: a list that `syn` refuses as meta
/// items is an error with `syn`'s message; else each item counts.
pub open spec fn spec_feature_attr(a: Attr, rd: SpecAttrReading, attr: int, on: bool) -> Result<bool, SpecFfiAttrError> {
    match a.meta {
        AttrMeta::List(toks) => match rd.list_error {
            Some(m) => Err(SpecFfiAttrError::FeatureArgs { attr, message: m }),
            None => {
                let items = spec_list_items(toks_view(toks@));
                spec_feature_items(items, items.len() as int, on, attr)
            },
        },
        _ => Err(SpecFfiAttrError::FeatureNotList { attr }),
    }
}

/// Whether the first `n` attributes enable `extern_types`, or the first
/// error among their `#![feature(...)]` attributes.
pub open spec fn spec_feature_scan(attrs: Seq<Attr>, rds: Seq<SpecAttrReading>, n: int) -> Result<bool, SpecFfiAttrError>
    decreases n,
{
    if n <= 0 {
        Ok(false)
    } else {
        match spec_feature_scan(attrs, rds, n - 1) {
            Err(e) => Err(e),
            Ok(on) => if attr_is_ident(attrs[n - 1], "feature"@) {
                spec_feature_attr(attrs[n - 1], reading_at(rds, n - 1), n - 1, on)
            } else {
                Ok(on)
            },
        }
    }
}

/// Once the scan of the features has failed, it stays failed.
proof fn lemma_feature_scan_err(attrs: Seq<Attr>, rds: Seq<SpecAttrReading>, k: int, n: int)
    requires
        k <= n,
        spec_feature_scan(attrs, rds, k) is Err,
    ensures
        spec_feature_scan(attrs, rds, n) == spec_feature_scan(attrs, rds, k),
    decreases n - k,
{
    if k < n {
        lemma_feature_scan_err(attrs, rds, k, n - 1);
    }
}

/// Once the items of a feature list have failed, they stay failed.
proof fn lemma_feature_items_err(items: Seq<Seq<SpecTok>>, k: int, n: int, on: bool, attr: int)
    requires
        k <= n,
        spec_feature_items(items, k, on, attr) is Err,
    ensures
        spec_feature_items(items, n, on, attr) == spec_feature_items(items, k, on, attr),
    decreases n - k,
{
    if k < n {
        lemma_feature_items_err(items, k, n - 1, on, attr);
    }
}

/// The value of a features result.
pub open spec fn features_result_view(r: Result<MacroFeatures, FfiAttrError>) -> Result<bool, SpecFfiAttrError> {
    match r {
        Ok(f) => Ok(f.extern_types),
        Err(e) => Err(e@),
    }
}

/// Applies one `#![feature(...)]` attribute at position `attr` to the
/// enabled state `on`.
fn feature_attr(a: &Attr, rd: &AttrReading, attr: usize, on: bool) -> (r: Result<bool, FfiAttrError>)
    ensures
        match r {
            Ok(b) => spec_feature_attr(*a, rd@, attr as int, on) == Ok::<bool, SpecFfiAttrError>(b),
            Err(e) => spec_feature_attr(*a, rd@, attr as int, on) == Err::<bool, SpecFfiAttrError>(e@),
        },
{
    let toks = match &a.meta {
        AttrMeta::List(toks) => toks,
        _ => {
            return Err(FfiAttrError::FeatureNotList { attr });
        },
    };
    match &rd.list_error {
        Some(message) => {
            return Err(FfiAttrError::FeatureArgs { attr, message: message.clone() });
        },
        None => {},
    }
    let items = list_items(toks);
    let ghost sitems = tok_lists_view(items@);
    let mut now = on;
    let mut k: usize = 0;
    proof {
        reveal_strlit("extern_types");
    }
    while k < items.len()
        invariant
            k <= items@.len(),
            sitems == tok_lists_view(items@),
            spec_feature_items(sitems, k as int, on, attr as int) == Ok::<bool, SpecFfiAttrError>(now),
            spec_feature_attr(*a, rd@, attr as int, on) == spec_feature_items(
                sitems,
                sitems.len() as int,
                on,
                attr as int,
            ),
        decreases items@.len() - k,
    {
        let item = &items[k];
        assert(sitems[k as int] == toks_view(item@));
        let mut name: Option<&String> = None;
        if item.len() == 1 {
            assert(toks_view(item@)[0] == item@[0]@);
            if let Tok::Ident(x) = &item[0] {
                name = Some(x);
            }
        }
        let bad = match name {
            Some(x) => {
                if !str_eq(x.as_str(), "extern_types") {
                    Some(FfiAttrError::UnsupportedFeature { attr, item: k })
                } else if now {
                    Some(FfiAttrError::DuplicateFeature { attr, item: k })
                } else {
                    None
                }
            },
            None => {
                assert(spec_feature_name(sitems[k as int]) is None);
                Some(FfiAttrError::FeatureName { attr, item: k })
            },
        };
        match bad {
            Some(e) => {
                proof {
                    lemma_feature_items_err(sitems, k + 1, sitems.len() as int, on, attr as int);
                }
                return Err(e);
            },
            None => {
                now = true;
            },
        }
        k = k + 1;
    }
    Ok(now)
}

/// Removes the `#![feature(...)]` attributes and gives the features they
/// enable: each lists bare identifiers, of which only `extern_types` is
/// supported, named once in all. The first malformed attribute or item is an
/// error, and then no attribute is left; else the others stay in order.
pub fn parse_feature_attrs(attrs: &mut Vec<Attr>, readings: &Vec<AttrReading>) -> (r: Result<MacroFeatures, FfiAttrError>)
    ensures
        features_result_view(r) == spec_feature_scan(old(attrs)@, readings_view(readings@), old(attrs)@.len() as int),
        r is Ok ==> final(attrs)@ == spec_kept(old(attrs)@, "feature"@),
        r is Err ==> final(attrs)@.len() == 0,
{
    let mut rest: Vec<Attr> = Vec::new();
    std::mem::swap(&mut rest, attrs);
    let ghost orig = rest@;
    let total = rest.len();
    let mut kept: Vec<Attr> = Vec::new();
    let mut on = false;
    let ghost rv = readings_view(readings@);
    let mut i: usize = 0;
    while rest.len() > 0
        invariant
            rv == readings_view(readings@),
            orig.len() == total,
            orig.len() == i + rest@.len(),
            rest@ == orig.subrange(i as int, orig.len() as int),
            attrs@.len() == 0,
            orig == old(attrs)@,
            kept@ == spec_kept_upto(orig, "feature"@, i as int),
            spec_feature_scan(orig, rv, i as int) == Ok::<bool, SpecFfiAttrError>(on),
        decreases rest@.len(),
    {
        let a = rest.remove(0);
        assert(a == orig[i as int]);
        proof {
            reveal_strlit("feature");
        }
        if attr_path_is(&a, "feature") {
            match feature_attr(&a, &reading_of(readings, i), i, on) {
                Ok(b) => {
                    on = b;
                },
                Err(e) => {
                    proof {
                        lemma_feature_scan_err(orig, rv, i + 1, orig.len() as int);
                    }
                    return Err(e);
                },
            }
        } else {
            kept.push(a);
        }
        i = i + 1;
        assert(rest@ =~= orig.subrange(i as int, orig.len() as int));
    }
    *attrs = kept;
    Ok(MacroFeatures { extern_types: on })
}

// ---------------------------------------------------------------------------
// `#![symbol_fragments(Type = "fragment", ...)]`.

/// One `Type = "fragment"` entry: the type path as written, which keys the
/// fragment, the path's name where it is a single identifier, and the
/// fragment.
#[derive(Debug, PartialEq, Eq)]
pub struct FragmentEntry {
    pub key: String,
    pub ident: Option<String>,
    pub value: String,
}

/// Why a list of symbol fragments was refused, with the position of the
/// entry concerned.
#[derive(Debug, Clone, Copy, PartialEq, Eq, Structural)]
pub enum FragmentError {
    /// The entry names a primitive type, whose fragment is built in.
    Primitive { entry: usize },
    /// The fragment is not valid symbol text.
    Symbol { entry: usize, error: SymbolTextError },
    /// The type already has a fragment.
    Duplicate { entry: usize },
}

/// Whether the name is a primitive type, whose fragment is built in.
pub open spec fn is_builtin_fragment_name(s: Seq<char>) -> bool {
    is_copy_primitive_name(s) || s == "str"@
}

/// The keys of fragment pairs.
pub open spec fn pair_keys(s: Seq<(String, String)>) -> Seq<Seq<char>> {
    Seq::new(s.len(), |i: int| s[i].0@)
}

/// The values of fragment pairs.
pub open spec fn pairs_view(s: Seq<(String, String)>) -> Seq<(Seq<char>, Seq<char>)> {
    Seq::new(s.len(), |i: int| (s[i].0@, s[i].1@))
}

/// The first of the first `k` entries that names a primitive type.
pub open spec fn spec_first_builtin(entries: Seq<FragmentEntry>, k: int) -> Option<int>
    decreases k,
{
    if k <= 0 {
        None
    } else {
        match spec_first_builtin(entries, k - 1) {
            Some(p) => Some(p),
            None => match entries[k - 1].ident {
                Some(x) => if is_builtin_fragment_name(x@) {
                    Some(k - 1)
                } else {
                    None
                },
                None => None,
            },
        }
    }
}

/// The fragments that the first `k` entries add to those with the keys
/// `known`: each must be valid symbol text and its key new.
pub open spec fn spec_fragment_fold(known: Seq<Seq<char>>, entries: Seq<FragmentEntry>, k: int) -> Result<
    Seq<(Seq<char>, Seq<char>)>,
    FragmentError,
>
    decreases k,
{
    if k <= 0 {
        Ok(Seq::empty())
    } else {
        match spec_fragment_fold(known, entries, k - 1) {
            Err(e) => Err(e),
            Ok(added) => {
                let e = entries[k - 1];
                match spec_validate_symbol(e.value@, false) {
                    Err(se) => Err(FragmentError::Symbol { entry: (k - 1) as usize, error: se }),
                    Ok(_) => if known.contains(e.key@) || added.map_values(
                        |p: (Seq<char>, Seq<char>)| p.0,
                    ).contains(e.key@) {
                        Err(FragmentError::Duplicate { entry: (k - 1) as usize })
                    } else {
                        Ok(added.push((e.key@, e.value@)))
                    },
                }
            },
        }
    }
}

/// The fragments that the entries of one list add to those with the keys
/// `known`: the whole list is read first, so an entry that names a
/// primitive type refuses it before any other check.
pub open spec fn spec_symbol_fragments(known: Seq<Seq<char>>, entries: Seq<FragmentEntry>) -> Result<
    Seq<(Seq<char>, Seq<char>)>,
    FragmentError,
> {
    match spec_first_builtin(entries, entries.len() as int) {
        Some(p) => Err(FragmentError::Primitive { entry: p as usize }),
        None => spec_fragment_fold(known, entries, entries.len() as int),
    }
}

/// Whether one of the pairs has the key.
fn has_key(pairs: &Vec<(String, String)>, key: &str) -> (r: bool)
    ensures
        r == pair_keys(pairs@).contains(key@),
{
    let mut i: usize = 0;
    while i < pairs.len()
        invariant
            i <= pairs@.len(),
            forall|j: int| 0 <= j < i ==> pairs@[j].0@ != key@,
        decreases pairs@.len() - i,
    {
        if str_eq(pairs[i].0.as_str(), key) {
            assert(pair_keys(pairs@)[i as int] == key@);
            return true;
        }
        i = i + 1;
    }
    proof {
        if pair_keys(pairs@).contains(key@) {
            let j = choose|j: int| 0 <= j < pair_keys(pairs@).len() && pair_keys(pairs@)[j] == key@;
            assert(pairs@[j].0@ == key@);
        }
    }
    false
}

/// Whether a name is a primitive type, whose fragment is built in.
pub fn is_builtin_symbol_fragment_type(s: &str) -> (r: bool)
    ensures
        r == is_builtin_fragment_name(s@),
{
    copy_primitive_name(s) || str_eq(s, "str")
}

/// Reads one `#![symbol_fragments(...)]` list: the fragments its entries add
/// to the pairs `known` already read, in order. An entry that names a
/// primitive type, a fragment that is not valid symbol text, or a type that
/// already has a fragment is an error.
pub fn symbol_fragment_pairs(known: &Vec<(String, String)>, entries: &Vec<FragmentEntry>) -> (r: Result<
    Vec<(String, String)>,
    FragmentError,
>)
    ensures
        match r {
            Ok(v) => spec_symbol_fragments(pair_keys(known@), entries@) == Ok::<
                Seq<(Seq<char>, Seq<char>)>,
                FragmentError,
            >(pairs_view(v@)),
            Err(e) => spec_symbol_fragments(pair_keys(known@), entries@) == Err::<
                Seq<(Seq<char>, Seq<char>)>,
                FragmentError,
            >(e),
        },
{
    let mut p: usize = 0;
    while p < entries.len()
        invariant
            p <= entries@.len(),
            spec_first_builtin(entries@, p as int) is None,
        decreases entries@.len() - p,
    {
        let builtin = match &entries[p].ident {
            Some(x) => is_builtin_symbol_fragment_type(x.as_str()),
            None => false,
        };
        if builtin {
            proof {
                lemma_first_builtin_stays(entries@, p as int + 1, entries@.len() as int);
            }
            return Err(FragmentError::Primitive { entry: p });
        }
        p = p + 1;
    }
    let mut added: Vec<(String, String)> = Vec::new();
    assert(pairs_view(added@) =~= Seq::<(Seq<char>, Seq<char>)>::empty());
    let mut k: usize = 0;
    while k < entries.len()
        invariant
            k <= entries@.len(),
            spec_first_builtin(entries@, entries@.len() as int) is None,
            spec_fragment_fold(pair_keys(known@), entries@, k as int) == Ok::<
                Seq<(Seq<char>, Seq<char>)>,
                FragmentError,
            >(pairs_view(added@)),
        decreases entries@.len() - k,
    {
        let e = &entries[k];
        match validate_symbol_text(e.value.as_str(), false) {
            Err(se) => {
                proof {
                    lemma_fragment_fold_stays(pair_keys(known@), entries@, k as int + 1, entries@.len() as int);
                }
                return Err(FragmentError::Symbol { entry: k, error: se });
            },
            Ok(_) => {},
        }
        assert(pairs_view(added@).map_values(|q: (Seq<char>, Seq<char>)| q.0) =~= pair_keys(added@));
        if has_key(known, e.key.as_str()) || has_key(&added, e.key.as_str()) {
            proof {
                lemma_fragment_fold_stays(pair_keys(known@), entries@, k as int + 1, entries@.len() as int);
            }
            return Err(FragmentError::Duplicate { entry: k });
        }
        let ghost before = added@;
        added.push((e.key.clone(), e.value.clone()));
        assert(pairs_view(added@) =~= pairs_view(before).push((e.key@, e.value@)));
        k = k + 1;
    }
    Ok(added)
}

/// Once an entry naming a primitive type is found, it stays the first.
proof fn lemma_first_builtin_stays(entries: Seq<FragmentEntry>, k: int, n: int)
    requires
        k <= n,
        spec_first_builtin(entries, k) is Some,
    ensures
        spec_first_builtin(entries, n) == spec_first_builtin(entries, k),
    decreases n - k,
{
    if k < n {
        lemma_first_builtin_stays(entries, k, n - 1);
    }
}

/// Once the fragments have failed, they stay failed.
proof fn lemma_fragment_fold_stays(known: Seq<Seq<char>>, entries: Seq<FragmentEntry>, k: int, n: int)
    requires
        k <= n,
        spec_fragment_fold(known, entries, k) is Err,
    ensures
        spec_fragment_fold(known, entries, n) == spec_fragment_fold(known, entries, k),
    decreases n - k,
{
    if k < n {
        lemma_fragment_fold_stays(known, entries, k, n - 1);
    }
}

/// The message of the error, where `entries` is the list it was found in.
pub open spec fn spec_fragment_message(e: FragmentError, entries: Seq<FragmentEntry>) -> Seq<char> {
    match e {
        FragmentError::Primitive { .. } => "Rust primitive types have stable, built-in symbol fragments"@,
        FragmentError::Symbol { error, .. } => spec_symbol_error_message(error),
        FragmentError::Duplicate { entry } => "duplicate symbol fragment for `"@ + entries[entry as int].key@
            + "`"@,
    }
}

impl FragmentError {
    /// The message of the error, where `entries` is the list it was found in.
    pub fn message(&self, entries: &Vec<FragmentEntry>) -> (s: String)
        requires
            match *self {
                FragmentError::Duplicate { entry } => entry < entries@.len(),
                _ => true,
            },
        ensures
            s@ == spec_fragment_message(*self, entries@),
    {
        match self {
            FragmentError::Primitive { .. } => String::from_str(
                "Rust primitive types have stable, built-in symbol fragments",
            ),
            FragmentError::Symbol { error, .. } => error.message().to_owned(),
            FragmentError::Duplicate { entry } => {
                let mut out: Vec<char> = Vec::new();
                push_str(&mut out, "duplicate symbol fragment for `");
                push_str(&mut out, entries[*entry].key.as_str());
                push_str(&mut out, "`");
                string_of(&out)
            },
        }
    }
}

// ---------------------------------------------------------------------------
// Laws.

/// How many of the first `n` attributes have the path `name`.
pub open spec fn named_count(attrs: Seq<Attr>, name: Seq<char>, n: int) -> int
    decreases n,
{
    if n <= 0 {
        0
    } else if attr_is_ident(attrs[n - 1], name) {
        named_count(attrs, name, n - 1) + 1
    } else {
        named_count(attrs, name, n - 1)
    }
}

proof fn lemma_kept_upto(attrs: Seq<Attr>, name: Seq<char>, n: int)
    requires
        0 <= n <= attrs.len(),
    ensures
        forall|i: int| 0 <= i < spec_kept_upto(attrs, name, n).len() ==> !attr_is_ident(
            #[trigger] spec_kept_upto(attrs, name, n)[i],
            name,
        ),
        forall|i: int|
            0 <= i < n && !attr_is_ident(attrs[i], name) ==> spec_kept_upto(attrs, name, n).contains(
                #[trigger] attrs[i],
            ),
        spec_kept_upto(attrs, name, n).len() + named_count(attrs, name, n) == n,
    decreases n,
{
    if n > 0 {
        lemma_kept_upto(attrs, name, n - 1);
        let before = spec_kept_upto(attrs, name, n - 1);
        if !attr_is_ident(attrs[n - 1], name) {
            let after = before.push(attrs[n - 1]);
            assert forall|i: int| 0 <= i < n && !attr_is_ident(attrs[i], name) implies after.contains(
                #[trigger] attrs[i],
            ) by {
                if i < n - 1 {
                    let j = choose|j: int| 0 <= j < before.len() && before[j] == attrs[i];
                    assert(after[j] == attrs[i]);
                } else {
                    assert(after[before.len() as int] == attrs[i]);
                }
            }
        }
    }
}

/// Reading an inner attribute removes exactly the attributes with its path:
/// none of those that stay has it, every other attribute stays, and as many
/// go as have it.
pub proof fn lemma_kept_removes_exactly_the_named(attrs: Seq<Attr>, name: Seq<char>)
    ensures
        forall|i: int| 0 <= i < spec_kept(attrs, name).len() ==> !attr_is_ident(#[trigger] spec_kept(attrs, name)[i], name),
        forall|i: int| 0 <= i < attrs.len() && !attr_is_ident(attrs[i], name) ==> spec_kept(attrs, name).contains(#[trigger] attrs[i]),
        spec_kept(attrs, name).len() + named_count(attrs, name, attrs.len() as int) == attrs.len(),
{
    lemma_kept_upto(attrs, name, attrs.len() as int);
}

/// The keys added by the first `k` entries.
proof fn lemma_fragment_fold_keys(known: Seq<Seq<char>>, entries: Seq<FragmentEntry>, k: int)
    requires
        0 <= k <= entries.len(),
        spec_fragment_fold(known, entries, k) is Ok,
    ensures
        ({
            let added = spec_fragment_fold(known, entries, k)->Ok_0;
            &&& forall|i: int| 0 <= i < added.len() ==> !known.contains(#[trigger] added[i].0)
            &&& forall|i: int, j: int| 0 <= i < j < added.len() ==> (#[trigger] added[i]).0 != (#[trigger] added[j]).0
        }),
    decreases k,
{
    if k > 0 {
        lemma_fragment_fold_keys(known, entries, k - 1);
        let before = spec_fragment_fold(known, entries, k - 1)->Ok_0;
        let e = entries[k - 1];
        let keys = before.map_values(|p: (Seq<char>, Seq<char>)| p.0);
        assert forall|i: int| 0 <= i < before.len() implies before[i].0 != e.key@ by {
            assert(keys[i] == before[i].0);
        }
    }
}

/// A list of symbol fragments that is accepted gives each type at most one
/// fragment: its keys are new and distinct.
pub proof fn lemma_fragments_are_unique(known: Seq<Seq<char>>, entries: Seq<FragmentEntry>)
    requires
        spec_symbol_fragments(known, entries) is Ok,
    ensures
        ({
            let added = spec_symbol_fragments(known, entries)->Ok_0;
            &&& forall|i: int| 0 <= i < added.len() ==> !known.contains(#[trigger] added[i].0)
            &&& forall|i: int, j: int| 0 <= i < j < added.len() ==> (#[trigger] added[i]).0 != (#[trigger] added[j]).0
        }),
{
    lemma_fragment_fold_keys(known, entries, entries.len() as int);
}

} // verus!
