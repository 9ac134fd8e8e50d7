//! The `#[symbol_name = "..."]` attribute that every exported or imported
//! item carries: the default name is added where none is written.
use vstd::prelude::*;
use crate::tokens::{Attr, AttrMeta, SpecTok, Tok, attr_is_ident, attr_path_is};
use crate::symbol::{fn_symbol_name, impl_fn_symbol_name, spec_fn_symbol_name, spec_impl_fn_symbol_name};
use crate::text::string_of;

verus! {

/// Whether some attribute is a `#[symbol_name ...]` attribute.
pub open spec fn spec_has_symbol_name(attrs: Seq<Attr>) -> bool {
    exists|i: int| 0 <= i < attrs.len() && attr_is_ident(#[trigger] attrs[i], "symbol_name"@)
}

/// The text of a string literal holding `s`: in double quotes, with `"`
/// and `\` escaped by a backslash.
pub open spec fn spec_escaped(s: Seq<char>) -> Seq<char>
    decreases s.len(),
{
    if s.len() == 0 {
        Seq::empty()
    } else {
        let c = s.last();
        spec_escaped(s.drop_last()) + if c == '"' || c == '\\' {
            seq!['\\', c]
        } else {
            seq![c]
        }
    }
}

/// The text of the string literal holding `s`.
pub open spec fn spec_quoted(s: Seq<char>) -> Seq<char> {
    seq!['"'] + spec_escaped(s) + seq!['"']
}

/// Whether `a` is `#[symbol_name = "name"]`.
pub open spec fn is_symbol_name_attr_for(a: Attr, name: Seq<char>) -> bool {
    &&& attr_is_ident(a, "symbol_name"@)
    &&& a.meta matches AttrMeta::NameValue(toks) && toks@.len() == 1 && toks@[0]@ == SpecTok::Literal(
        spec_quoted(name),
    )
}

/// Whether `after` is `before`, unchanged where it has a `#[symbol_name]`
/// attribute, else with `#[symbol_name = "name"]` appended.
pub open spec fn symbol_name_ensured(before: Seq<Attr>, after: Seq<Attr>, name: Seq<char>) -> bool {
    if spec_has_symbol_name(before) {
        after == before
    } else {
        &&& after.len() == before.len() + 1
        &&& after.subrange(0, before.len() as int) == before
        &&& is_symbol_name_attr_for(after[before.len() as int], name)
    }
}

/// Writes the text of the string literal holding `s`.
fn quoted(s: &str) -> (r: String)
    ensures
        r@ == spec_quoted(s@),
{
    let chars = crate::text::chars_of(s);
    let mut out: Vec<char> = Vec::new();
    out.push('"');
    let mut i: usize = 0;
    while i < chars.len()
        invariant
            i <= chars@.len(),
            chars@ == s@,
            out@ == seq!['"'] + spec_escaped(chars@.subrange(0, i as int)),
        decreases chars@.len() - i,
    {
        let c = chars[i];
        let ghost before = out@;
        if c == '"' || c == '\\' {
            out.push('\\');
            out.push(c);
        } else {
            out.push(c);
        }
        assert(chars@.subrange(0, i + 1).drop_last() =~= chars@.subrange(0, i as int));
        assert(chars@.subrange(0, i + 1).last() == c);
        assert(out@ =~= seq!['"'] + spec_escaped(chars@.subrange(0, i + 1)));
        i = i + 1;
    }
    out.push('"');
    assert(chars@.subrange(0, chars@.len() as int) =~= chars@);
    string_of(&out)
}

/// Tests whether some attribute is a `#[symbol_name ...]` attribute.
fn has_symbol_name(attrs: &Vec<Attr>) -> (r: bool)
    ensures
        r == spec_has_symbol_name(attrs@),
{
    proof {
        reveal_strlit("symbol_name");
    }
    let mut i: usize = 0;
    while i < attrs.len()
        invariant
            i <= attrs@.len(),
            forall|j: int| 0 <= j < i ==> !attr_is_ident(#[trigger] attrs@[j], "symbol_name"@),
        decreases attrs@.len() - i,
    {
        if attr_path_is(&attrs[i], "symbol_name") {
            return true;
        }
        i = i + 1;
    }
    false
}

/// Appends `#[symbol_name = "name"]` unless a `#[symbol_name]` attribute is
/// there.
fn ensure_symbol_name(attrs: &mut Vec<Attr>, name: String)
    ensures
        symbol_name_ensured(old(attrs)@, final(attrs)@, name@),
{
    if has_symbol_name(attrs) {
        return;
    }
    let ghost before = attrs@;
    let lit = quoted(name.as_str());
    let toks: Vec<Tok> = vec![Tok::Literal(lit)];
    let a = Attr { path: vec![String::from_str("symbol_name")], meta: AttrMeta::NameValue(toks) };
    proof {
        reveal_strlit("symbol_name");
    }
    attrs.push(a);
    assert(attrs@.subrange(0, before.len() as int) =~= before);
    assert(a.path@[0]@ == "symbol_name"@);
}

/// Gives a free function (or an imported one) its default symbol name,
/// `prefix__name` followed by `__{P}` for each static binding parameter `P`,
/// unless it carries a `#[symbol_name]` attribute already.
pub fn ensure_symbol_name_on_fn(attrs: &mut Vec<Attr>, prefix: &str, fn_name: &str, static_params: &Vec<String>)
    ensures
        symbol_name_ensured(
            old(attrs)@,
            final(attrs)@,
            spec_fn_symbol_name(prefix@, fn_name@, static_params@.map_values(|p: String| p@)),
        ),
{
    let name = fn_symbol_name(prefix, fn_name, static_params);
    ensure_symbol_name(attrs, name);
}

/// Gives a static its default symbol name `prefix__name`, unless it carries
/// a `#[symbol_name]` attribute already.
pub fn ensure_symbol_name_on_static(attrs: &mut Vec<Attr>, prefix: &str, static_name: &str)
    ensures
        symbol_name_ensured(old(attrs)@, final(attrs)@, spec_fn_symbol_name(prefix@, static_name@, Seq::empty())),
{
    let none: Vec<String> = Vec::new();
    assert(none@.map_values(|p: String| p@) =~= Seq::<Seq<char>>::empty());
    ensure_symbol_name_on_fn(attrs, prefix, static_name, &none);
}

/// Gives a method its default symbol name, `prefix__[Trait__]Self__name`
/// followed by `__{P}` for each static binding parameter `P`, from the
/// symbol names of the trait and of the self type, unless it carries a
/// `#[symbol_name]` attribute already.
pub fn ensure_symbol_name_on_impl_fn(
    attrs: &mut Vec<Attr>,
    prefix: &str,
    trait_name: Option<&str>,
    self_name: &str,
    fn_name: &str,
    static_params: &Vec<String>,
)
    ensures
        symbol_name_ensured(
            old(attrs)@,
            final(attrs)@,
            spec_impl_fn_symbol_name(
                prefix@,
                match trait_name {
                    Some(t) => Some(t@),
                    None => None,
                },
                self_name@,
                fn_name@,
                static_params@.map_values(|p: String| p@),
            ),
        ),
{
    let name = impl_fn_symbol_name(prefix, trait_name, self_name, fn_name, static_params);
    ensure_symbol_name(attrs, name);
}

} // verus!
