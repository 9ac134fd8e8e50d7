//! The `#[repr(C)]` types that stand for a type across the foreign
//! boundary: their definitions and the impls every one of them has.
use vstd::prelude::*;
use crate::codegen::{
    gen_extern_c_bounds, ident, impl_block, lists_view, path2, spec_extern_c_bounds, spec_impl_block,
    spec_path2,
};
use crate::preprocess::append_toks;
use crate::tokens::{Delimiter, SpecTok, Tok, toks_view};

verus! {

/// `#[inner]`.
pub open spec fn spec_attr(inner: Seq<SpecTok>) -> Seq<SpecTok> {
    seq![SpecTok::Punct('#', false), SpecTok::Group(Delimiter::Bracket, inner)]
}

/// A string literal of the text, which holds nothing to escape.
pub open spec fn spec_str_lit(text: Seq<char>) -> SpecTok {
    SpecTok::Literal("\""@ + text + "\""@)
}

/// `#[repr(C)] #[doc = "doc"] #[doc(hidden)]`, and for a union
/// `#[allow(non_snake_case)]`.
pub open spec fn spec_repr_c_attrs(doc: Seq<char>, union: bool) -> Seq<SpecTok> {
    spec_attr(seq![SpecTok::Ident("repr"@), SpecTok::Group(Delimiter::Parenthesis, seq![SpecTok::Ident("C"@)])])
        + spec_attr(seq![SpecTok::Ident("doc"@), SpecTok::Punct('=', false), spec_str_lit(doc)]) + spec_attr(
        seq![SpecTok::Ident("doc"@), SpecTok::Group(Delimiter::Parenthesis, seq![SpecTok::Ident("hidden"@)])],
    ) + if union {
        spec_attr(
            seq![SpecTok::Ident("allow"@), SpecTok::Group(Delimiter::Parenthesis, seq![SpecTok::Ident("non_snake_case"@)])],
        )
    } else {
        Seq::empty()
    }
}

/// The definition of a `#[repr(C)]` type named `name`: a union, or a struct
/// with named or (`tuple`) positional fields, public or not, whose fields
/// are `fields`, with the impl generics `ig` and the where clause `bounded`.
pub open spec fn spec_repr_c_def(
    union: bool,
    public: bool,
    tuple: bool,
    doc: Seq<char>,
    name: Seq<char>,
    ig: Seq<SpecTok>,
    bounded: Seq<SpecTok>,
    fields: Seq<SpecTok>,
) -> Seq<SpecTok> {
    let head = spec_repr_c_attrs(doc, union) + (if public {
        seq![SpecTok::Ident("pub"@)]
    } else {
        Seq::empty()
    }) + seq![SpecTok::Ident(if union {
        "union"@
    } else {
        "struct"@
    }), SpecTok::Ident(name)] + ig;
    if !union && tuple {
        head + seq![SpecTok::Group(Delimiter::Parenthesis, fields)] + bounded + seq![SpecTok::Punct(';', false)]
    } else {
        head + bounded + seq![SpecTok::Group(Delimiter::Brace, fields)]
    }
}

/// `fn clone(&self) -> Self { *self }`
pub open spec fn spec_clone_body() -> Seq<SpecTok> {
    seq![
        SpecTok::Ident("fn"@),
        SpecTok::Ident("clone"@),
        SpecTok::Group(Delimiter::Parenthesis, seq![SpecTok::Punct('&', false), SpecTok::Ident("self"@)]),
        SpecTok::Punct('-', true),
        SpecTok::Punct('>', false),
        SpecTok::Ident("Self"@),
        SpecTok::Group(Delimiter::Brace, seq![SpecTok::Punct('*', false), SpecTok::Ident("self"@)]),
    ]
}

/// `co3::mineral! { unsafe impl(params) Robust for Name<..> where (bounds) {} }`
pub open spec fn spec_robust(name: Seq<char>, params: Seq<SpecTok>, tg: Seq<SpecTok>, where_inner: Seq<SpecTok>) -> Seq<
    SpecTok,
> {
    spec_path2("co3"@, "mineral"@) + seq![
        SpecTok::Punct('!', false),
        SpecTok::Group(
            Delimiter::Brace,
            seq![
                SpecTok::Ident("unsafe"@),
                SpecTok::Ident("impl"@),
                SpecTok::Group(Delimiter::Parenthesis, params),
                SpecTok::Ident("Robust"@),
                SpecTok::Ident("for"@),
                SpecTok::Ident(name),
            ] + tg + seq![
                SpecTok::Ident("where"@),
                SpecTok::Group(Delimiter::Parenthesis, where_inner),
                SpecTok::Group(Delimiter::Brace, Seq::empty()),
            ],
        ),
    ]
}

/// A `#[repr(C)]` type and what every such type has: its definition, where
/// each field type that mentions a generic parameter is `co3::ExternC` and
/// the type's own predicates hold; `Clone` (by copy) and `Copy` under the
/// same bounds; and `Robust`, declared through `co3::mineral!`. The
/// generics come as the parts `split_for_impl` gives (`ig`, `tg`, the where
/// clause's predicates `preds`) and as the parameter list `params`.
pub open spec fn spec_repr_c_type(
    union: bool,
    public: bool,
    tuple: bool,
    doc: Seq<char>,
    name: Seq<char>,
    ig: Seq<SpecTok>,
    tg: Seq<SpecTok>,
    params: Seq<SpecTok>,
    preds: Seq<SpecTok>,
    fields: Seq<SpecTok>,
    tys: Seq<Seq<SpecTok>>,
    flags: Seq<bool>,
) -> Seq<SpecTok> {
    let bounds = spec_extern_c_bounds(tys, flags, tys.len() as int);
    let bounded = seq![SpecTok::Ident("where"@)] + bounds + preds;
    spec_repr_c_def(union, public, tuple, doc, name, ig, bounded, fields) + spec_impl_block(
        ig,
        seq![SpecTok::Ident("Clone"@)],
        name,
        tg,
        bounded,
        spec_clone_body(),
    ) + spec_impl_block(ig, seq![SpecTok::Ident("Copy"@)], name, tg, bounded, Seq::empty()) + spec_robust(
        name,
        params,
        tg,
        bounds + preds,
    )
}

fn attr(inner: Vec<Tok>) -> (r: Vec<Tok>)
    ensures
        toks_view(r@) == spec_attr(toks_view(inner@)),
{
    let ghost iv = toks_view(inner@);
    let r = vec![Tok::Punct('#', false), Tok::Group(Delimiter::Bracket, inner)];
    assert(toks_view(r@) =~= spec_attr(iv));
    r
}

fn str_lit(text: &str) -> (r: Tok)
    ensures
        r@ == spec_str_lit(text@),
{
    let mut v: Vec<char> = Vec::new();
    v.push('"');
    crate::text::push_str(&mut v, text);
    v.push('"');
    proof {
        reveal_strlit("\"");
        assert(v@ =~= "\""@ + text@ + "\""@);
    }
    Tok::Literal(crate::text::string_of(&v))
}

fn paren_of_ident(name: &str) -> (r: Tok)
    ensures
        r@ == SpecTok::Group(Delimiter::Parenthesis, seq![SpecTok::Ident(name@)]),
{
    let v = vec![ident(name)];
    assert(toks_view(v@) =~= seq![SpecTok::Ident(name@)]);
    Tok::Group(Delimiter::Parenthesis, v)
}

fn repr_c_attrs(doc: &str, union: bool) -> (r: Vec<Tok>)
    ensures
        toks_view(r@) == spec_repr_c_attrs(doc@, union),
{
    proof {
        reveal_strlit("repr");
        reveal_strlit("C");
        reveal_strlit("doc");
        reveal_strlit("hidden");
        reveal_strlit("allow");
        reveal_strlit("non_snake_case");
    }
    let a1 = vec![ident("repr"), paren_of_ident("C")];
    assert(toks_view(a1@) =~= seq![SpecTok::Ident("repr"@), SpecTok::Group(Delimiter::Parenthesis, seq![SpecTok::Ident("C"@)])]);
    let mut out = attr(a1);
    let a2 = vec![ident("doc"), Tok::Punct('=', false), str_lit(doc)];
    assert(toks_view(a2@) =~= seq![SpecTok::Ident("doc"@), SpecTok::Punct('=', false), spec_str_lit(doc@)]);
    append_toks(&mut out, &attr(a2));
    let a3 = vec![ident("doc"), paren_of_ident("hidden")];
    assert(toks_view(a3@) =~= seq![SpecTok::Ident("doc"@), SpecTok::Group(Delimiter::Parenthesis, seq![SpecTok::Ident("hidden"@)])]);
    append_toks(&mut out, &attr(a3));
    if union {
        let a4 = vec![ident("allow"), paren_of_ident("non_snake_case")];
        assert(toks_view(a4@) =~= seq![
            SpecTok::Ident("allow"@),
            SpecTok::Group(Delimiter::Parenthesis, seq![SpecTok::Ident("non_snake_case"@)]),
        ]);
        append_toks(&mut out, &attr(a4));
    } else {
        let ghost o = toks_view(out@);
        assert(o + Seq::<SpecTok>::empty() =~= o);
    }
    out
}

fn clone_body() -> (r: Vec<Tok>)
    ensures
        toks_view(r@) == spec_clone_body(),
{
    proof {
        reveal_strlit("fn");
        reveal_strlit("clone");
        reveal_strlit("self");
        reveal_strlit("Self");
    }
    let p = vec![Tok::Punct('&', false), ident("self")];
    assert(toks_view(p@) =~= seq![SpecTok::Punct('&', false), SpecTok::Ident("self"@)]);
    let b = vec![Tok::Punct('*', false), ident("self")];
    assert(toks_view(b@) =~= seq![SpecTok::Punct('*', false), SpecTok::Ident("self"@)]);
    let r = vec![
        ident("fn"),
        ident("clone"),
        Tok::Group(Delimiter::Parenthesis, p),
        Tok::Punct('-', true),
        Tok::Punct('>', false),
        ident("Self"),
        Tok::Group(Delimiter::Brace, b),
    ];
    assert(toks_view(r@) =~= spec_clone_body());
    r
}

fn robust(name: &str, params: &Vec<Tok>, tg: &Vec<Tok>, where_inner: Vec<Tok>) -> (r: Vec<Tok>)
    ensures
        toks_view(r@) == spec_robust(name@, toks_view(params@), toks_view(tg@), toks_view(where_inner@)),
{
    proof {
        reveal_strlit("unsafe");
        reveal_strlit("impl");
        reveal_strlit("Robust");
        reveal_strlit("for");
        reveal_strlit("where");
    }
    let mut params_copy: Vec<Tok> = Vec::new();
    append_toks(&mut params_copy, params);
    assert(toks_view(params_copy@) =~= toks_view(params@));
    let ghost pv = toks_view(params@);
    let mut inner = vec![
        ident("unsafe"),
        ident("impl"),
        Tok::Group(Delimiter::Parenthesis, params_copy),
        ident("Robust"),
        ident("for"),
        ident(name),
    ];
    assert(toks_view(inner@) =~= seq![
        SpecTok::Ident("unsafe"@),
        SpecTok::Ident("impl"@),
        SpecTok::Group(Delimiter::Parenthesis, pv),
        SpecTok::Ident("Robust"@),
        SpecTok::Ident("for"@),
        SpecTok::Ident(name@),
    ]);
    append_toks(&mut inner, tg);
    let ghost wv = toks_view(where_inner@);
    let empty: Vec<Tok> = Vec::new();
    assert(toks_view(empty@) =~= Seq::<SpecTok>::empty());
    let tail = vec![ident("where"), Tok::Group(Delimiter::Parenthesis, where_inner), Tok::Group(Delimiter::Brace, empty)];
    assert(toks_view(tail@) =~= seq![
        SpecTok::Ident("where"@),
        SpecTok::Group(Delimiter::Parenthesis, wv),
        SpecTok::Group(Delimiter::Brace, Seq::empty()),
    ]);
    append_toks(&mut inner, &tail);
    let ghost iv = toks_view(inner@);
    let mut out = path2("co3", "mineral");
    let ghost o = toks_view(out@);
    let t2 = vec![Tok::Punct('!', false), Tok::Group(Delimiter::Brace, inner)];
    assert(toks_view(t2@) =~= seq![SpecTok::Punct('!', false), SpecTok::Group(Delimiter::Brace, iv)]);
    append_toks(&mut out, &t2);
    out
}

/// A `#[repr(C)]` type and what every such type has (see
/// `spec_repr_c_type`): `union` for a union, `public` for a `pub` one,
/// `tuple` for positional fields, its documentation, its name, the parts of
/// its generics, its fields, and the tokens of its field types with whether
/// each mentions a generic parameter.
pub fn gen_repr_c_type(
    union: bool,
    public: bool,
    tuple: bool,
    doc: &str,
    name: &str,
    impl_generics: &Vec<Tok>,
    ty_generics: &Vec<Tok>,
    params: &Vec<Tok>,
    predicates: &Vec<Tok>,
    fields: Vec<Tok>,
    field_types: &Vec<Vec<Tok>>,
    parameterized: &Vec<bool>,
) -> (r: Vec<Tok>)
    ensures
        toks_view(r@) == spec_repr_c_type(
            union,
            public,
            tuple,
            doc@,
            name@,
            toks_view(impl_generics@),
            toks_view(ty_generics@),
            toks_view(params@),
            toks_view(predicates@),
            toks_view(fields@),
            lists_view(field_types@),
            parameterized@,
        ),
{
    proof {
        reveal_strlit("where");
        reveal_strlit("pub");
        reveal_strlit("union");
        reveal_strlit("struct");
        reveal_strlit("Clone");
        reveal_strlit("Copy");
    }
    let bounds = gen_extern_c_bounds(field_types, parameterized);
    let mut bounded = vec![ident("where")];
    assert(toks_view(bounded@) =~= seq![SpecTok::Ident("where"@)]);
    append_toks(&mut bounded, &bounds);
    append_toks(&mut bounded, predicates);
    let ghost bv = toks_view(bounded@);
    let ghost fv = toks_view(fields@);
    // The definition.
    let mut out = repr_c_attrs(doc, union);
    if public {
        let v = vec![ident("pub")];
        assert(toks_view(v@) =~= seq![SpecTok::Ident("pub"@)]);
        append_toks(&mut out, &v);
    } else {
        let ghost o = toks_view(out@);
        assert(o + Seq::<SpecTok>::empty() =~= o);
    }
    let kw = if union {
        "union"
    } else {
        "struct"
    };
    let v = vec![ident(kw), ident(name)];
    assert(toks_view(v@) =~= seq![SpecTok::Ident(if union {
        "union"@
    } else {
        "struct"@
    }), SpecTok::Ident(name@)]);
    append_toks(&mut out, &v);
    append_toks(&mut out, impl_generics);
    if !union && tuple {
        let g = vec![Tok::Group(Delimiter::Parenthesis, fields)];
        assert(toks_view(g@) =~= seq![SpecTok::Group(Delimiter::Parenthesis, fv)]);
        append_toks(&mut out, &g);
        append_toks(&mut out, &bounded);
        let s = vec![Tok::Punct(';', false)];
        assert(toks_view(s@) =~= seq![SpecTok::Punct(';', false)]);
        append_toks(&mut out, &s);
    } else {
        append_toks(&mut out, &bounded);
        let g = vec![Tok::Group(Delimiter::Brace, fields)];
        assert(toks_view(g@) =~= seq![SpecTok::Group(Delimiter::Brace, fv)]);
        append_toks(&mut out, &g);
    }
    // The impls.
    let clone_path = vec![ident("Clone")];
    assert(toks_view(clone_path@) =~= seq![SpecTok::Ident("Clone"@)]);
    append_toks(&mut out, &impl_block(impl_generics, &clone_path, name, ty_generics, &bounded, clone_body()));
    let copy_path = vec![ident("Copy")];
    assert(toks_view(copy_path@) =~= seq![SpecTok::Ident("Copy"@)]);
    let empty: Vec<Tok> = Vec::new();
    assert(toks_view(empty@) =~= Seq::<SpecTok>::empty());
    append_toks(&mut out, &impl_block(impl_generics, &copy_path, name, ty_generics, &bounded, empty));
    let mut where_inner: Vec<Tok> = Vec::new();
    append_toks(&mut where_inner, &bounds);
    append_toks(&mut where_inner, predicates);
    assert(toks_view(where_inner@) =~= toks_view(bounds@) + toks_view(predicates@));
    append_toks(&mut out, &robust(name, params, ty_generics, where_inner));
    out
}

// ---------------------------------------------------------------------------
// The union that stands for an enum with data.

/// A variant of an enum with data: its name, and the tokens of its one
/// field's type (with whether it mentions a generic parameter), where it has
/// one.
#[derive(Debug, PartialEq, Eq)]
pub struct DataVariant {
    pub name: String,
    pub field: Option<Vec<Tok>>,
    pub parameterized: bool,
}

/// The value of a variant.
pub struct SpecDataVariant {
    pub name: Seq<char>,
    pub field: Option<Seq<SpecTok>>,
    pub parameterized: bool,
}

impl View for DataVariant {
    type V = SpecDataVariant;

    open spec fn view(&self) -> SpecDataVariant {
        SpecDataVariant {
            name: self.name@,
            field: match self.field {
                Some(t) => Some(toks_view(t@)),
                None => None,
            },
            parameterized: self.parameterized,
        }
    }
}

/// The values of a sequence of variants.
pub open spec fn variants_view(s: Seq<DataVariant>) -> Seq<SpecDataVariant> {
    Seq::new(s.len(), |i: int| s[i]@)
}

/// The name of the `#[repr(C)]` type of `name`: `C` and the name.
pub open spec fn spec_repr_c_name(name: Seq<char>) -> Seq<char> {
    "C"@ + name
}

/// The name of the struct of variant `v` of enum `e`: `C{e}Variant{v}`.
pub open spec fn spec_variant_struct_name(e: Seq<char>, v: Seq<char>) -> Seq<char> {
    "C"@ + e + "Variant"@ + v
}

/// The field types of the variants that have one, in order.
pub open spec fn spec_field_types(vs: Seq<SpecDataVariant>) -> Seq<Seq<SpecTok>>
    decreases vs.len(),
{
    if vs.len() == 0 {
        Seq::empty()
    } else {
        spec_field_types(vs.drop_last()) + match vs.last().field {
            Some(t) => seq![t],
            None => Seq::empty(),
        }
    }
}

/// Whether each of those field types mentions a generic parameter.
pub open spec fn spec_field_flags(vs: Seq<SpecDataVariant>) -> Seq<bool>
    decreases vs.len(),
{
    if vs.len() == 0 {
        Seq::empty()
    } else {
        spec_field_flags(vs.drop_last()) + match vs.last().field {
            Some(_) => seq![vs.last().parameterized],
            None => Seq::empty(),
        }
    }
}

/// The fields of a variant's struct: `tag: R` for a variant without data,
/// else `pub tag: R, pub value: <T as co3::ExternC>::CType`.
pub open spec fn spec_variant_fields(v: SpecDataVariant, repr: Seq<char>) -> Seq<SpecTok> {
    match v.field {
        None => seq![SpecTok::Ident("tag"@), SpecTok::Punct(':', false), SpecTok::Ident(repr)],
        Some(t) => seq![
            SpecTok::Ident("pub"@),
            SpecTok::Ident("tag"@),
            SpecTok::Punct(':', false),
            SpecTok::Ident(repr),
            SpecTok::Punct(',', false),
            SpecTok::Ident("pub"@),
            SpecTok::Ident("value"@),
            SpecTok::Punct(':', false),
        ] + crate::layout::spec_c_type_tokens(t),
    }
}

/// The struct of a variant, public, with the tag and the foreign form of
/// its field.
pub open spec fn spec_variant_struct(
    e: Seq<char>,
    v: SpecDataVariant,
    repr: Seq<char>,
    ig: Seq<SpecTok>,
    tg: Seq<SpecTok>,
    params: Seq<SpecTok>,
    preds: Seq<SpecTok>,
) -> Seq<SpecTok> {
    spec_repr_c_type(
        false,
        true,
        false,
        " Variant struct for [`"@ + e + "::"@ + v.name + "`]"@,
        spec_variant_struct_name(e, v.name),
        ig,
        tg,
        params,
        preds,
        spec_variant_fields(v, repr),
        spec_field_types(seq![v]),
        spec_field_flags(seq![v]),
    )
}

/// The structs of the first `n` variants.
pub open spec fn spec_variant_structs(
    e: Seq<char>,
    vs: Seq<SpecDataVariant>,
    n: int,
    repr: Seq<char>,
    ig: Seq<SpecTok>,
    tg: Seq<SpecTok>,
    params: Seq<SpecTok>,
    preds: Seq<SpecTok>,
) -> Seq<SpecTok>
    decreases n,
{
    if n <= 0 || n > vs.len() {
        Seq::empty()
    } else {
        spec_variant_structs(e, vs, n - 1, repr, ig, tg, params, preds) + spec_variant_struct(e, vs[n - 1], repr, ig, tg, params, preds)
    }
}

/// The union's fields for the first `n` variants: `pub V: C{e}Variant{V}<..>`,
/// separated by commas.
pub open spec fn spec_union_fields(e: Seq<char>, vs: Seq<SpecDataVariant>, n: int, tg: Seq<SpecTok>) -> Seq<SpecTok>
    decreases n,
{
    if n <= 0 || n > vs.len() {
        Seq::empty()
    } else {
        spec_union_fields(e, vs, n - 1, tg) + (if n > 1 {
            seq![SpecTok::Punct(',', false)]
        } else {
            Seq::empty()
        }) + seq![
            SpecTok::Ident("pub"@),
            SpecTok::Ident(vs[n - 1].name),
            SpecTok::Punct(':', false),
            SpecTok::Ident(spec_variant_struct_name(e, vs[n - 1].name)),
        ] + tg
    }
}

/// The `#[repr(C)]` form of an enum with data: a struct per variant, then
/// the union `C{e}` of them.
pub open spec fn spec_data_enum(
    e: Seq<char>,
    vs: Seq<SpecDataVariant>,
    repr: Seq<char>,
    ig: Seq<SpecTok>,
    tg: Seq<SpecTok>,
    params: Seq<SpecTok>,
    preds: Seq<SpecTok>,
) -> Seq<SpecTok> {
    spec_variant_structs(e, vs, vs.len() as int, repr, ig, tg, params, preds) + spec_repr_c_type(
        true,
        true,
        false,
        " FFI-safe equivalent of [`"@ + e + "`]"@,
        spec_repr_c_name(e),
        ig,
        tg,
        params,
        preds,
        spec_union_fields(e, vs, vs.len() as int, tg),
        spec_field_types(vs),
        spec_field_flags(vs),
    )
}

fn cat2(a: &str, b: &str) -> (r: String)
    ensures
        r@ == a@ + b@,
{
    let mut v: Vec<char> = Vec::new();
    crate::text::push_str(&mut v, a);
    crate::text::push_str(&mut v, b);
    crate::text::string_of(&v)
}

/// The name of the `#[repr(C)]` type of `name`.
pub fn repr_c_name(name: &str) -> (r: String)
    ensures
        r@ == spec_repr_c_name(name@),
{
    cat2("C", name)
}

/// The name of the struct of variant `v` of enum `e`.
pub fn variant_struct_name(e: &str, v: &str) -> (r: String)
    ensures
        r@ == spec_variant_struct_name(e@, v@),
{
    let a = cat2("C", e);
    let b = cat2(a.as_str(), "Variant");
    cat2(b.as_str(), v)
}

fn clone_toks_opt(t: &Vec<Tok>) -> (r: Vec<Tok>)
    ensures
        toks_view(r@) == toks_view(t@),
{
    let mut out: Vec<Tok> = Vec::new();
    append_toks(&mut out, t);
    assert(toks_view(out@) =~= toks_view(t@));
    out
}

/// The field types of the variants that have one, with whether each
/// mentions a generic parameter.
pub fn field_types_of(vs: &Vec<DataVariant>) -> (r: (Vec<Vec<Tok>>, Vec<bool>))
    ensures
        lists_view(r.0@) == spec_field_types(variants_view(vs@)),
        r.1@ == spec_field_flags(variants_view(vs@)),
{
    let ghost vv = variants_view(vs@);
    let mut tys: Vec<Vec<Tok>> = Vec::new();
    let mut flags: Vec<bool> = Vec::new();
    let mut i: usize = 0;
    while i < vs.len()
        invariant
            i <= vs@.len(),
            vv == variants_view(vs@),
            lists_view(tys@) == spec_field_types(vv.take(i as int)),
            flags@ == spec_field_flags(vv.take(i as int)),
        decreases vs@.len() - i,
    {
        let ghost t0 = lists_view(tys@);
        let ghost f0 = flags@;
        assert(vv.take(i + 1).drop_last() =~= vv.take(i as int));
        assert(vv.take(i + 1).last() == vs@[i as int]@);
        match &vs[i].field {
            Some(t) => {
                tys.push(clone_toks_opt(t));
                flags.push(vs[i].parameterized);
                assert(lists_view(tys@) =~= t0 + seq![toks_view(t@)]);
                assert(flags@ =~= f0 + seq![vs[i as int].parameterized]);
            },
            None => {
                assert(lists_view(tys@) =~= t0 + Seq::<Seq<SpecTok>>::empty());
                assert(flags@ =~= f0 + Seq::<bool>::empty());
            },
        }
        i = i + 1;
    }
    assert(vv.take(vs@.len() as int) =~= vv);
    (tys, flags)
}

fn variant_fields(v: &DataVariant, repr: &str) -> (r: Vec<Tok>)
    ensures
        toks_view(r@) == spec_variant_fields(v@, repr@),
{
    proof {
        reveal_strlit("tag");
        reveal_strlit("pub");
        reveal_strlit("value");
    }
    match &v.field {
        None => {
            let r = vec![ident("tag"), Tok::Punct(':', false), ident(repr)];
            assert(toks_view(r@) =~= spec_variant_fields(v@, repr@));
            r
        },
        Some(t) => {
            let mut r = vec![
                ident("pub"),
                ident("tag"),
                Tok::Punct(':', false),
                ident(repr),
                Tok::Punct(',', false),
                ident("pub"),
                ident("value"),
                Tok::Punct(':', false),
            ];
            let ghost r0 = toks_view(r@);
            append_toks(&mut r, &crate::layout::c_type_tokens(t));
            assert(toks_view(r@) =~= spec_variant_fields(v@, repr@));
            r
        },
    }
}

fn doc_variant(e: &str, v: &str) -> (r: String)
    ensures
        r@ == " Variant struct for [`"@ + e@ + "::"@ + v@ + "`]"@,
{
    let a = cat2(" Variant struct for [`", e);
    let b = cat2(a.as_str(), "::");
    let c = cat2(b.as_str(), v);
    cat2(c.as_str(), "`]")
}

fn variant_struct(
    e: &str,
    v: &DataVariant,
    repr: &str,
    ig: &Vec<Tok>,
    tg: &Vec<Tok>,
    params: &Vec<Tok>,
    preds: &Vec<Tok>,
) -> (r: Vec<Tok>)
    ensures
        toks_view(r@) == spec_variant_struct(e@, v@, repr@, toks_view(ig@), toks_view(tg@), toks_view(params@), toks_view(preds@)),
{
    let mut one: Vec<DataVariant> = Vec::new();
    let copy = DataVariant {
        name: v.name.clone(),
        field: match &v.field {
            Some(t) => Some(clone_toks_opt(t)),
            None => None,
        },
        parameterized: v.parameterized,
    };
    assert(copy@ == v@);
    one.push(copy);
    assert(variants_view(one@) =~= seq![v@]);
    let (tys, flags) = field_types_of(&one);
    let name = variant_struct_name(e, v.name.as_str());
    let doc = doc_variant(e, v.name.as_str());
    gen_repr_c_type(false, true, false, doc.as_str(), name.as_str(), ig, tg, params, preds, variant_fields(v, repr), &tys, &flags)
}

fn union_fields(e: &str, vs: &Vec<DataVariant>, tg: &Vec<Tok>) -> (r: Vec<Tok>)
    ensures
        toks_view(r@) == spec_union_fields(e@, variants_view(vs@), vs@.len() as int, toks_view(tg@)),
{
    proof {
        reveal_strlit("pub");
    }
    let ghost vv = variants_view(vs@);
    let mut out: Vec<Tok> = Vec::new();
    let mut i: usize = 0;
    assert(toks_view(out@) =~= Seq::<SpecTok>::empty());
    while i < vs.len()
        invariant
            i <= vs@.len(),
            vv == variants_view(vs@),
            toks_view(out@) == spec_union_fields(e@, vv, i as int, toks_view(tg@)),
        decreases vs@.len() - i,
    {
        let ghost o0 = toks_view(out@);
        if i > 0 {
            out.push(Tok::Punct(',', false));
        }
        let ghost o1 = toks_view(out@);
        assert(o1 =~= o0 + (if i + 1 > 1 {
            seq![SpecTok::Punct(',', false)]
        } else {
            Seq::<SpecTok>::empty()
        }));
        let sname = variant_struct_name(e, vs[i].name.as_str());
        let item = vec![ident("pub"), Tok::Ident(vs[i].name.clone()), Tok::Punct(':', false), Tok::Ident(sname)];
        assert(toks_view(item@) =~= seq![
            SpecTok::Ident("pub"@),
            SpecTok::Ident(vv[i as int].name),
            SpecTok::Punct(':', false),
            SpecTok::Ident(spec_variant_struct_name(e@, vv[i as int].name)),
        ]);
        append_toks(&mut out, &item);
        append_toks(&mut out, tg);
        i = i + 1;
    }
    out
}

fn doc_union(e: &str) -> (r: String)
    ensures
        r@ == " FFI-safe equivalent of [`"@ + e@ + "`]"@,
{
    let a = cat2(" FFI-safe equivalent of [`", e);
    cat2(a.as_str(), "`]")
}

/// The `#[repr(C)]` form of an enum with data (see `spec_data_enum`), from
/// its name, its variants, the name of its repr, and the parts of its
/// generics.
pub fn gen_data_enum(
    e: &str,
    vs: &Vec<DataVariant>,
    repr: &str,
    impl_generics: &Vec<Tok>,
    ty_generics: &Vec<Tok>,
    params: &Vec<Tok>,
    predicates: &Vec<Tok>,
) -> (r: Vec<Tok>)
    ensures
        toks_view(r@) == spec_data_enum(
            e@,
            variants_view(vs@),
            repr@,
            toks_view(impl_generics@),
            toks_view(ty_generics@),
            toks_view(params@),
            toks_view(predicates@),
        ),
{
    let ghost vv = variants_view(vs@);
    let mut out: Vec<Tok> = Vec::new();
    let mut i: usize = 0;
    assert(toks_view(out@) =~= Seq::<SpecTok>::empty());
    while i < vs.len()
        invariant
            i <= vs@.len(),
            vv == variants_view(vs@),
            toks_view(out@) == spec_variant_structs(
                e@,
                vv,
                i as int,
                repr@,
                toks_view(impl_generics@),
                toks_view(ty_generics@),
                toks_view(params@),
                toks_view(predicates@),
            ),
        decreases vs@.len() - i,
    {
        append_toks(&mut out, &variant_struct(e, &vs[i], repr, impl_generics, ty_generics, params, predicates));
        i = i + 1;
    }
    let (tys, flags) = field_types_of(vs);
    let name = repr_c_name(e);
    let doc = doc_union(e);
    let u = gen_repr_c_type(
        true,
        true,
        false,
        doc.as_str(),
        name.as_str(),
        impl_generics,
        ty_generics,
        params,
        predicates,
        union_fields(e, vs, ty_generics),
        &tys,
        &flags,
    );
    append_toks(&mut out, &u);
    out
}

} // verus!
