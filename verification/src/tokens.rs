//! A plain model of the token trees and attributes that the macros read.
use vstd::prelude::*;

verus! {

/// The delimiter of a token group.
#[derive(Debug, Clone, Copy, PartialEq, Eq, Structural)]
pub enum Delimiter {
    Parenthesis,
    Brace,
    Bracket,
    Invisible,
}

/// One token tree: an identifier, a punctuation character (with whether it is
/// joined to the next one), a literal as written, or a delimited group.
#[derive(Debug, PartialEq, Eq)]
pub enum Tok {
    Ident(String),
    Punct(char, bool),
    Literal(String),
    Group(Delimiter, Vec<Tok>),
}

/// The form of an attribute after its path: `#[path]`, `#[path(...)]` or
/// `#[path = ...]`, with the tokens inside the list or after the `=`.
#[derive(Debug, PartialEq, Eq)]
pub enum AttrMeta {
    Path,
    List(Vec<Tok>),
    NameValue(Vec<Tok>),
}

/// An outer attribute: its path segments and its meta.
#[derive(Debug, PartialEq, Eq)]
pub struct Attr {
    pub path: Vec<String>,
    pub meta: AttrMeta,
}

/// Whether the token is the punctuation character `c`.
pub open spec fn is_punct(t: Tok, c: char) -> bool {
    match t {
        Tok::Punct(p, _) => p == c,
        _ => false,
    }
}

/// Whether the attribute's path is the single identifier `name`.
pub open spec fn attr_is_ident(attr: Attr, name: Seq<char>) -> bool {
    attr.path@.len() == 1 && attr.path@[0]@ == name
}

/// Tests whether the token is the punctuation character `c`.
pub fn tok_is_punct(t: &Tok, c: char) -> (r: bool)
    ensures
        r == is_punct(*t, c),
{
    match t {
        Tok::Punct(p, _) => *p == c,
        _ => false,
    }
}

/// Tests whether the attribute's path is the single identifier `name`.
pub fn attr_path_is(attr: &Attr, name: &str) -> (r: bool)
    ensures
        r == attr_is_ident(*attr, name@),
{
    attr.path.len() == 1 && crate::text::str_eq(attr.path[0].as_str(), name)
}


/// The value of a token tree.
pub enum SpecTok {
    Ident(Seq<char>),
    Punct(char, bool),
    Literal(Seq<char>),
    Group(Delimiter, Seq<SpecTok>),
}

/// The value of a token tree.
pub open spec fn tok_view(t: Tok) -> SpecTok
    decreases t, 0int,
{
    match t {
        Tok::Ident(s) => SpecTok::Ident(s@),
        Tok::Punct(c, j) => SpecTok::Punct(c, j),
        Tok::Literal(s) => SpecTok::Literal(s@),
        Tok::Group(d, inner) => SpecTok::Group(d, toks_view(inner@)),
    }
}

/// The values of a sequence of token trees.
pub open spec fn toks_view(s: Seq<Tok>) -> Seq<SpecTok>
    decreases s, 1int,
{
    Seq::new(
        s.len(),
        |i: int| if 0 <= i < s.len() { tok_view(s[i]) } else { SpecTok::Punct(' ', false) },
    )
}

impl View for Tok {
    type V = SpecTok;

    open spec fn view(&self) -> SpecTok {
        tok_view(*self)
    }
}

/// A copy of a token tree.
pub fn clone_tok(t: &Tok) -> (r: Tok)
    ensures
        r@ == t@,
    decreases t, 0int,
{
    match t {
        Tok::Ident(x) => Tok::Ident(x.clone()),
        Tok::Punct(c, j) => Tok::Punct(*c, *j),
        Tok::Literal(x) => Tok::Literal(x.clone()),
        Tok::Group(d, inner) => {
            proof {
                assert(decreases_to!(*t => (*t)->Group_1));
            }
            let r = Tok::Group(*d, clone_toks(inner));
            assert(toks_view(r->Group_1@) =~= toks_view(inner@));
            r
        },
    }
}

/// A copy of a sequence of token trees.
pub fn clone_toks(v: &Vec<Tok>) -> (r: Vec<Tok>)
    ensures
        toks_view(r@) == toks_view(v@),
    decreases v, 1int,
{
    let mut out: Vec<Tok> = Vec::new();
    let mut i: usize = 0;
    while i < v.len()
        invariant
            i <= v@.len(),
            out@.len() == i,
            forall|j: int| 0 <= j < i ==> (#[trigger] out@[j])@ == v@[j]@,
        decreases v@.len() - i,
    {
        proof {
            assert(decreases_to!(*v => v@));
            assert(decreases_to!(v@ => v@[i as int]));
        }
        out.push(clone_tok(&v[i]));
        i = i + 1;
    }
    assert(toks_view(out@) =~= toks_view(v@));
    out
}

} // verus!
