//! What an enum without a `#[repr]` derives: its niche, and for an enum
//! without fields, its encoding as the smallest integer that numbers its
//! variants.
use vstd::prelude::*;
use crate::codegen::{
    gen_ir_impl, gen_out_ptr_impls, ident, impl_block, kind_item, lists_view, path2, path3,
    spec_impl_block, spec_ir_impl, spec_kind_item, spec_out_ptr_impls, spec_path2, spec_path3,
};
use crate::layout::{infer_repr, is_exhaustive_enum, repr_value_count, spec_infer_repr};
use crate::preprocess::append_toks;
use crate::repr::{ReprPrimitive, spec_primitive_name};
use crate::text::{decimal, spec_decimal, string_of};
use crate::tokens::{Delimiter, SpecTok, Tok, toks_view};

verus! {

/// `<Self as co3::ExternC>::CType`.
pub open spec fn spec_self_c_type() -> Seq<SpecTok> {
    seq![SpecTok::Punct('<', false), SpecTok::Ident("Self"@), SpecTok::Ident("as"@)] + spec_path2("co3"@, "ExternC"@)
        + seq![
        SpecTok::Punct('>', false),
        SpecTok::Punct(':', true),
        SpecTok::Punct(':', false),
        SpecTok::Ident("CType"@),
    ]
}

/// The niche value of an enum with fields: a zeroed foreign value whose tag
/// (its first field, of the repr type) is written the literal `lit`.
pub open spec fn spec_niche_block(repr: ReprPrimitive, lit: Seq<char>) -> Seq<SpecTok> {
    let zeroed = spec_path3("core"@, "mem"@, "zeroed"@) + seq![SpecTok::Group(Delimiter::Parenthesis, Seq::empty())];
    let write = seq![SpecTok::Punct('*', false)] + spec_path3("core"@, "ptr"@, "from_mut"@) + seq![
        SpecTok::Group(
            Delimiter::Parenthesis,
            seq![SpecTok::Punct('&', false), SpecTok::Ident("mut"@), SpecTok::Ident("value"@)],
        ),
        SpecTok::Punct('.', false),
        SpecTok::Ident("cast"@),
        SpecTok::Punct(':', true),
        SpecTok::Punct(':', false),
        SpecTok::Punct('<', false),
        SpecTok::Ident(spec_primitive_name(repr)),
        SpecTok::Punct('>', false),
        SpecTok::Group(Delimiter::Parenthesis, Seq::empty()),
        SpecTok::Punct('=', false),
        SpecTok::Literal(lit),
    ];
    seq![
        SpecTok::Group(
            Delimiter::Brace,
            seq![
                SpecTok::Ident("let"@),
                SpecTok::Ident("mut"@),
                SpecTok::Ident("value"@),
                SpecTok::Punct(':', false),
                SpecTok::Ident("Self"@),
                SpecTok::Punct(':', true),
                SpecTok::Punct(':', false),
                SpecTok::Ident("CType"@),
                SpecTok::Punct('=', false),
                SpecTok::Ident("unsafe"@),
                SpecTok::Group(Delimiter::Brace, zeroed),
                SpecTok::Punct(';', false),
                SpecTok::Ident("unsafe"@),
                SpecTok::Group(Delimiter::Brace, write),
                SpecTok::Punct(';', false),
                SpecTok::Ident("value"@),
            ],
        ),
    ]
}

/// `const NICHE_VALUE: <Self as co3::ExternC>::CType = value;`
pub open spec fn spec_niche_const(value: Seq<SpecTok>) -> Seq<SpecTok> {
    seq![SpecTok::Ident("const"@), SpecTok::Ident("NICHE_VALUE"@), SpecTok::Punct(':', false)] + spec_self_c_type()
        + seq![SpecTok::Punct('=', false)] + value + seq![SpecTok::Punct(';', false)]
}

/// The niche of an enum of `count` variants with the repr `repr`, from its
/// name and the parts of its generics as `split_for_impl` gives them (the
/// where clause's predicates alone): where the variants use every value of
/// the repr, `NicheFamily` of kind `WithoutNiche`; else `Niche` with the
/// first value no variant uses (the count itself, written as the tag of a
/// zeroed foreign value where a variant has fields) and `NicheFamily` of
/// kind `WithCustomNiche`.
pub open spec fn spec_enum_niche_ir(
    repr: ReprPrimitive,
    name: Seq<char>,
    ig: Seq<SpecTok>,
    tg: Seq<SpecTok>,
    wc: Seq<SpecTok>,
    preds: Seq<SpecTok>,
    count: nat,
    fieldless: bool,
) -> Seq<SpecTok> {
    let family = spec_path3("co3"@, "niche"@, "NicheFamily"@);
    if repr_value_count(repr) == Some(count) {
        spec_impl_block(ig, family, name, tg, wc, spec_kind_item(spec_path3("co3"@, "niche"@, "WithoutNiche"@)))
    } else {
        let value = if fieldless {
            seq![SpecTok::Literal(spec_decimal(count))]
        } else {
            spec_niche_block(repr, spec_decimal(count))
        };
        let bounded = seq![SpecTok::Ident("where"@), SpecTok::Ident("Self"@), SpecTok::Punct(':', false)] + spec_path2(
            "co3"@,
            "ExternC"@,
        ) + seq![SpecTok::Punct(',', false)] + preds;
        spec_impl_block(ig, spec_path3("co3"@, "niche"@, "Niche"@), name, tg, bounded, spec_niche_const(value))
            + spec_impl_block(ig, family, name, tg, wc, spec_kind_item(spec_path3("co3"@, "niche"@, "WithCustomNiche"@)))
    }
}

fn self_c_type() -> (r: Vec<Tok>)
    ensures
        toks_view(r@) == spec_self_c_type(),
{
    proof {
        reveal_strlit("Self");
        reveal_strlit("as");
        reveal_strlit("CType");
    }
    let mut out: Vec<Tok> = vec![Tok::Punct('<', false), ident("Self"), ident("as")];
    assert(toks_view(out@) =~= seq![SpecTok::Punct('<', false), SpecTok::Ident("Self"@), SpecTok::Ident("as"@)]);
    append_toks(&mut out, &path2("co3", "ExternC"));
    let tail = vec![Tok::Punct('>', false), Tok::Punct(':', true), Tok::Punct(':', false), ident("CType")];
    assert(toks_view(tail@) =~= seq![
        SpecTok::Punct('>', false),
        SpecTok::Punct(':', true),
        SpecTok::Punct(':', false),
        SpecTok::Ident("CType"@),
    ]);
    append_toks(&mut out, &tail);
    out
}

fn niche_block(repr: ReprPrimitive, lit: String) -> (r: Vec<Tok>)
    ensures
        toks_view(r@) == spec_niche_block(repr, lit@),
{
    proof {
        reveal_strlit("let");
        reveal_strlit("mut");
        reveal_strlit("value");
        reveal_strlit("Self");
        reveal_strlit("CType");
        reveal_strlit("unsafe");
        reveal_strlit("cast");
    }
    let mut zeroed = path3("core", "mem", "zeroed");
    let ghost z0 = toks_view(zeroed@);
    let e1: Vec<Tok> = Vec::new();
    assert(toks_view(e1@) =~= Seq::<SpecTok>::empty());
    zeroed.push(Tok::Group(Delimiter::Parenthesis, e1));
    assert(toks_view(zeroed@) =~= z0 + seq![SpecTok::Group(Delimiter::Parenthesis, Seq::empty())]);
    let mut write: Vec<Tok> = vec![Tok::Punct('*', false)];
    assert(toks_view(write@) =~= seq![SpecTok::Punct('*', false)]);
    append_toks(&mut write, &path3("core", "ptr", "from_mut"));
    let ghost w0 = toks_view(write@);
    let arg = vec![Tok::Punct('&', false), ident("mut"), ident("value")];
    assert(toks_view(arg@) =~= seq![SpecTok::Punct('&', false), SpecTok::Ident("mut"@), SpecTok::Ident("value"@)]);
    let e2: Vec<Tok> = Vec::new();
    assert(toks_view(e2@) =~= Seq::<SpecTok>::empty());
    let ghost litv = lit@;
    let tail = vec![
        Tok::Group(Delimiter::Parenthesis, arg),
        Tok::Punct('.', false),
        ident("cast"),
        Tok::Punct(':', true),
        Tok::Punct(':', false),
        Tok::Punct('<', false),
        ident(repr.name()),
        Tok::Punct('>', false),
        Tok::Group(Delimiter::Parenthesis, e2),
        Tok::Punct('=', false),
        Tok::Literal(lit),
    ];
    assert(toks_view(tail@) =~= seq![
        SpecTok::Group(
            Delimiter::Parenthesis,
            seq![SpecTok::Punct('&', false), SpecTok::Ident("mut"@), SpecTok::Ident("value"@)],
        ),
        SpecTok::Punct('.', false),
        SpecTok::Ident("cast"@),
        SpecTok::Punct(':', true),
        SpecTok::Punct(':', false),
        SpecTok::Punct('<', false),
        SpecTok::Ident(spec_primitive_name(repr)),
        SpecTok::Punct('>', false),
        SpecTok::Group(Delimiter::Parenthesis, Seq::empty()),
        SpecTok::Punct('=', false),
        SpecTok::Literal(litv),
    ]);
    append_toks(&mut write, &tail);
    let ghost zv = toks_view(zeroed@);
    let ghost wv = toks_view(write@);
    let inner = vec![
        ident("let"),
        ident("mut"),
        ident("value"),
        Tok::Punct(':', false),
        ident("Self"),
        Tok::Punct(':', true),
        Tok::Punct(':', false),
        ident("CType"),
        Tok::Punct('=', false),
        ident("unsafe"),
        Tok::Group(Delimiter::Brace, zeroed),
        Tok::Punct(';', false),
        ident("unsafe"),
        Tok::Group(Delimiter::Brace, write),
        Tok::Punct(';', false),
        ident("value"),
    ];
    let ghost iv = seq![
        SpecTok::Ident("let"@),
        SpecTok::Ident("mut"@),
        SpecTok::Ident("value"@),
        SpecTok::Punct(':', false),
        SpecTok::Ident("Self"@),
        SpecTok::Punct(':', true),
        SpecTok::Punct(':', false),
        SpecTok::Ident("CType"@),
        SpecTok::Punct('=', false),
        SpecTok::Ident("unsafe"@),
        SpecTok::Group(Delimiter::Brace, zv),
        SpecTok::Punct(';', false),
        SpecTok::Ident("unsafe"@),
        SpecTok::Group(Delimiter::Brace, wv),
        SpecTok::Punct(';', false),
        SpecTok::Ident("value"@),
    ];
    assert(toks_view(inner@) =~= iv);
    let r = vec![Tok::Group(Delimiter::Brace, inner)];
    assert(toks_view(r@) =~= seq![SpecTok::Group(Delimiter::Brace, iv)]);
    r
}

fn niche_const(value: Vec<Tok>) -> (r: Vec<Tok>)
    ensures
        toks_view(r@) == spec_niche_const(toks_view(value@)),
{
    proof {
        reveal_strlit("const");
        reveal_strlit("NICHE_VALUE");
    }
    let mut out = vec![ident("const"), ident("NICHE_VALUE"), Tok::Punct(':', false)];
    assert(toks_view(out@) =~= seq![SpecTok::Ident("const"@), SpecTok::Ident("NICHE_VALUE"@), SpecTok::Punct(':', false)]);
    append_toks(&mut out, &self_c_type());
    let ghost m = toks_view(out@);
    out.push(Tok::Punct('=', false));
    assert(toks_view(out@) =~= m + seq![SpecTok::Punct('=', false)]);
    append_toks(&mut out, &value);
    let ghost m2 = toks_view(out@);
    out.push(Tok::Punct(';', false));
    assert(toks_view(out@) =~= m2 + seq![SpecTok::Punct(';', false)]);
    out
}

/// The niche of an enum of `count` variants with the repr `repr`, from its
/// name, the parts of its generics as `split_for_impl` gives them (the
/// where clause's predicates alone), and whether no variant has fields.
pub fn gen_enum_niche_ir(
    repr: ReprPrimitive,
    name: &str,
    impl_generics: &Vec<Tok>,
    ty_generics: &Vec<Tok>,
    where_clause: &Vec<Tok>,
    predicates: &Vec<Tok>,
    count: usize,
    fieldless: bool,
) -> (r: Vec<Tok>)
    ensures
        toks_view(r@) == spec_enum_niche_ir(
            repr,
            name@,
            toks_view(impl_generics@),
            toks_view(ty_generics@),
            toks_view(where_clause@),
            toks_view(predicates@),
            count as nat,
            fieldless,
        ),
{
    proof {
        reveal_strlit("where");
        reveal_strlit("Self");
    }
    if is_exhaustive_enum(count, repr) {
        return impl_block(
            impl_generics,
            &path3("co3", "niche", "NicheFamily"),
            name,
            ty_generics,
            where_clause,
            kind_item(path3("co3", "niche", "WithoutNiche")),
        );
    }
    let lit = string_of(&decimal(count));
    let value = if fieldless {
        let v = vec![Tok::Literal(lit)];
        assert(toks_view(v@) =~= seq![SpecTok::Literal(spec_decimal(count as nat))]);
        v
    } else {
        niche_block(repr, lit)
    };
    let mut bounded = vec![ident("where"), ident("Self"), Tok::Punct(':', false)];
    assert(toks_view(bounded@) =~= seq![SpecTok::Ident("where"@), SpecTok::Ident("Self"@), SpecTok::Punct(':', false)]);
    append_toks(&mut bounded, &path2("co3", "ExternC"));
    let ghost b1 = toks_view(bounded@);
    bounded.push(Tok::Punct(',', false));
    assert(toks_view(bounded@) =~= b1 + seq![SpecTok::Punct(',', false)]);
    append_toks(&mut bounded, predicates);
    let mut out = impl_block(impl_generics, &path3("co3", "niche", "Niche"), name, ty_generics, &bounded, niche_const(value));
    let fam = impl_block(
        impl_generics,
        &path3("co3", "niche", "NicheFamily"),
        name,
        ty_generics,
        where_clause,
        kind_item(path3("co3", "niche", "WithCustomNiche")),
    );
    append_toks(&mut out, &fam);
    out
}

/// `'name`, a lifetime.
pub open spec fn spec_lifetime(name: Seq<char>) -> Seq<SpecTok> {
    seq![SpecTok::Punct('\'', true), SpecTok::Ident(name)]
}

/// `type Store = ();`
pub open spec fn spec_unit_store() -> Seq<SpecTok> {
    seq![
        SpecTok::Ident("type"@),
        SpecTok::Ident("Store"@),
        SpecTok::Punct('=', false),
        SpecTok::Group(Delimiter::Parenthesis, Seq::empty()),
        SpecTok::Punct(';', false),
    ]
}

/// `_store: &'_išč mut Self::Store`
pub open spec fn spec_store_param() -> Seq<SpecTok> {
    seq![SpecTok::Ident("_store"@), SpecTok::Punct(':', false), SpecTok::Punct('&', false)] + spec_lifetime("_išč"@)
        + seq![
        SpecTok::Ident("mut"@),
        SpecTok::Ident("Self"@),
        SpecTok::Punct(':', true),
        SpecTok::Punct(':', false),
        SpecTok::Ident("Store"@),
    ]
}

/// `->`
pub open spec fn spec_arrow() -> Seq<SpecTok> {
    seq![SpecTok::Punct('-', true), SpecTok::Punct('>', false)]
}

/// The `Encode` impl of an enum without fields: its store is `()`, and a
/// value is encoded as itself cast to the repr `repr`.
pub open spec fn spec_fieldless_encode(name: Seq<char>, repr: ReprPrimitive) -> Seq<SpecTok> {
    let params = seq![SpecTok::Ident("self"@), SpecTok::Punct(',', false)] + spec_store_param();
    let body = spec_unit_store() + seq![
        SpecTok::Ident("fn"@),
        SpecTok::Ident("encode"@),
        SpecTok::Punct('<', false),
    ] + spec_lifetime("_išč"@) + seq![SpecTok::Punct('>', false), SpecTok::Group(Delimiter::Parenthesis, params)]
        + spec_arrow() + spec_self_c_type() + seq![SpecTok::Ident("where"@), SpecTok::Ident("Self"@), SpecTok::Punct(':', false)]
        + spec_lifetime("_išč"@) + seq![
        SpecTok::Group(
            Delimiter::Brace,
            seq![SpecTok::Ident("self"@), SpecTok::Ident("as"@), SpecTok::Ident(spec_primitive_name(repr))],
        ),
    ];
    spec_impl_block(Seq::empty(), spec_path2("co3"@, "Encode"@), name, Seq::empty(), Seq::empty(), body)
}

/// The match arm `i => Some(Self::variant),`.
pub open spec fn spec_decode_arm(i: nat, variant: Seq<char>) -> Seq<SpecTok> {
    seq![
        SpecTok::Literal(spec_decimal(i)),
        SpecTok::Punct('=', true),
        SpecTok::Punct('>', false),
        SpecTok::Ident("Some"@),
        SpecTok::Group(
            Delimiter::Parenthesis,
            seq![SpecTok::Ident("Self"@), SpecTok::Punct(':', true), SpecTok::Punct(':', false), SpecTok::Ident(variant)],
        ),
        SpecTok::Punct(',', false),
    ]
}

/// The arms of the first `n` variants, numbered from 0.
pub open spec fn spec_decode_arms(variants: Seq<Seq<char>>, n: int) -> Seq<SpecTok>
    decreases n,
{
    if n <= 0 || n > variants.len() {
        Seq::empty()
    } else {
        spec_decode_arms(variants, n - 1) + spec_decode_arm((n - 1) as nat, variants[n - 1])
    }
}

/// The `Decode` impl of an enum without fields: its store is `()`, and a
/// foreign value that numbers a variant decodes to it; any other to `None`.
pub open spec fn spec_fieldless_decode(name: Seq<char>, variants: Seq<Seq<char>>) -> Seq<SpecTok> {
    let ig = seq![SpecTok::Punct('<', false)] + spec_lifetime("_dšč"@) + seq![SpecTok::Punct('>', false)];
    let trait_path = spec_path2("co3"@, "Decode"@) + ig;
    let params = seq![SpecTok::Ident("source"@), SpecTok::Punct(':', false)] + spec_self_c_type() + seq![
        SpecTok::Punct(',', false),
    ] + spec_store_param();
    let arms = spec_decode_arms(variants, variants.len() as int) + seq![
        SpecTok::Ident("_"@),
        SpecTok::Punct('=', true),
        SpecTok::Punct('>', false),
        SpecTok::Ident("None"@),
    ];
    let body = spec_unit_store() + seq![
        SpecTok::Ident("unsafe"@),
        SpecTok::Ident("fn"@),
        SpecTok::Ident("decode"@),
        SpecTok::Punct('<', false),
    ] + spec_lifetime("_išč"@) + seq![SpecTok::Punct(':', false)] + spec_lifetime("_dšč"@) + seq![
        SpecTok::Punct('>', false),
        SpecTok::Group(Delimiter::Parenthesis, params),
    ] + spec_arrow() + seq![
        SpecTok::Ident("Option"@),
        SpecTok::Punct('<', false),
        SpecTok::Ident("Self"@),
        SpecTok::Punct('>', false),
        SpecTok::Group(
            Delimiter::Brace,
            seq![SpecTok::Ident("match"@), SpecTok::Ident("source"@), SpecTok::Group(Delimiter::Brace, arms)],
        ),
    ];
    spec_impl_block(ig, trait_path, name, Seq::empty(), Seq::empty(), body)
}

/// What an enum without a `#[repr]` whose variants have no fields derives,
/// from its name and its variants' names: the repr is the smallest unsigned
/// integer that numbers the variants; the enum is its own representation
/// family with that integer as its foreign type, is encoded as its number
/// and decoded from it, has the first unused number as its niche (unless
/// every value is used), and can be written to and read from out pointers.
pub open spec fn spec_fieldless_enum(name: Seq<char>, variants: Seq<Seq<char>>) -> Seq<SpecTok> {
    let repr = spec_infer_repr(variants.len());
    let e = Seq::<SpecTok>::empty();
    spec_ir_impl(name, spec_primitive_name(repr), Seq::empty(), Seq::empty(), e, e, e, e) + spec_fieldless_encode(name, repr)
        + spec_fieldless_decode(name, variants) + spec_enum_niche_ir(repr, name, e, e, e, e, variants.len(), true)
        + spec_out_ptr_impls(name, e, e, e, true)
}

fn lifetime(name: &str) -> (r: Vec<Tok>)
    ensures
        toks_view(r@) == spec_lifetime(name@),
{
    let r = vec![Tok::Punct('\'', true), ident(name)];
    assert(toks_view(r@) =~= spec_lifetime(name@));
    r
}

fn unit_store() -> (r: Vec<Tok>)
    ensures
        toks_view(r@) == spec_unit_store(),
{
    proof {
        reveal_strlit("type");
        reveal_strlit("Store");
    }
    let e: Vec<Tok> = Vec::new();
    assert(toks_view(e@) =~= Seq::<SpecTok>::empty());
    let r = vec![ident("type"), ident("Store"), Tok::Punct('=', false), Tok::Group(Delimiter::Parenthesis, e), Tok::Punct(';', false)];
    assert(toks_view(r@) =~= spec_unit_store());
    r
}

fn store_param() -> (r: Vec<Tok>)
    ensures
        toks_view(r@) == spec_store_param(),
{
    proof {
        reveal_strlit("_store");
        reveal_strlit("mut");
        reveal_strlit("Self");
        reveal_strlit("Store");
    }
    let mut out = vec![ident("_store"), Tok::Punct(':', false), Tok::Punct('&', false)];
    assert(toks_view(out@) =~= seq![SpecTok::Ident("_store"@), SpecTok::Punct(':', false), SpecTok::Punct('&', false)]);
    append_toks(&mut out, &lifetime("_išč"));
    let tail = vec![ident("mut"), ident("Self"), Tok::Punct(':', true), Tok::Punct(':', false), ident("Store")];
    assert(toks_view(tail@) =~= seq![
        SpecTok::Ident("mut"@),
        SpecTok::Ident("Self"@),
        SpecTok::Punct(':', true),
        SpecTok::Punct(':', false),
        SpecTok::Ident("Store"@),
    ]);
    append_toks(&mut out, &tail);
    out
}

fn arrow() -> (r: Vec<Tok>)
    ensures
        toks_view(r@) == spec_arrow(),
{
    let r = vec![Tok::Punct('-', true), Tok::Punct('>', false)];
    assert(toks_view(r@) =~= spec_arrow());
    r
}

fn fieldless_encode(name: &str, repr: ReprPrimitive) -> (r: Vec<Tok>)
    ensures
        toks_view(r@) == spec_fieldless_encode(name@, repr),
{
    proof {
        reveal_strlit("self");
        reveal_strlit("fn");
        reveal_strlit("encode");
        reveal_strlit("where");
        reveal_strlit("Self");
        reveal_strlit("as");
    }
    let mut params = vec![ident("self"), Tok::Punct(',', false)];
    assert(toks_view(params@) =~= seq![SpecTok::Ident("self"@), SpecTok::Punct(',', false)]);
    append_toks(&mut params, &store_param());
    let ghost pv = toks_view(params@);
    let mut body = unit_store();
    {
        let v = vec![ident("fn"), ident("encode"), Tok::Punct('<', false)];
        assert(toks_view(v@) =~= seq![
        SpecTok::Ident("fn"@),
        SpecTok::Ident("encode"@),
        SpecTok::Punct('<', false),
    ]);
        append_toks(&mut body, &v);
    }
    append_toks(&mut body, &lifetime("_išč"));
    {
        let v = vec![Tok::Punct('>', false), Tok::Group(Delimiter::Parenthesis, params)];
        assert(toks_view(v@) =~= seq![
        SpecTok::Punct('>', false),
        SpecTok::Group(Delimiter::Parenthesis, pv),
    ]);
        append_toks(&mut body, &v);
    }
    append_toks(&mut body, &arrow());
    append_toks(&mut body, &self_c_type());
    {
        let v = vec![ident("where"), ident("Self"), Tok::Punct(':', false)];
        assert(toks_view(v@) =~= seq![
        SpecTok::Ident("where"@),
        SpecTok::Ident("Self"@),
        SpecTok::Punct(':', false),
    ]);
        append_toks(&mut body, &v);
    }
    append_toks(&mut body, &lifetime("_išč"));
    let cast = vec![ident("self"), ident("as"), ident(repr.name())];
    let ghost cv = seq![SpecTok::Ident("self"@), SpecTok::Ident("as"@), SpecTok::Ident(spec_primitive_name(repr))];
    assert(toks_view(cast@) =~= cv);
    {
        let v = vec![Tok::Group(Delimiter::Brace, cast)];
        assert(toks_view(v@) =~= seq![SpecTok::Group(Delimiter::Brace, cv)]);
        append_toks(&mut body, &v);
    }
    let e: Vec<Tok> = Vec::new();
    assert(toks_view(e@) =~= Seq::<SpecTok>::empty());
    let r = impl_block(&e, &path2("co3", "Encode"), name, &e, &e, body);
    assert(toks_view(r@) =~= spec_fieldless_encode(name@, repr));
    r
}

fn decode_arms(variants: &Vec<String>) -> (r: Vec<Tok>)
    ensures
        toks_view(r@) == spec_decode_arms(crate::types::strings_view(variants@), variants@.len() as int),
{
    proof {
        reveal_strlit("Some");
        reveal_strlit("Self");
    }
    let ghost vv = crate::types::strings_view(variants@);
    let mut out: Vec<Tok> = Vec::new();
    let mut i: usize = 0;
    assert(toks_view(out@) =~= Seq::<SpecTok>::empty());
    while i < variants.len()
        invariant
            i <= variants@.len(),
            vv == crate::types::strings_view(variants@),
            toks_view(out@) == spec_decode_arms(vv, i as int),
        decreases variants@.len() - i,
    {
        let path = vec![ident("Self"), Tok::Punct(':', true), Tok::Punct(':', false), Tok::Ident(variants[i].clone())];
        let ghost pv = seq![SpecTok::Ident("Self"@), SpecTok::Punct(':', true), SpecTok::Punct(':', false), SpecTok::Ident(vv[i as int])];
        assert(toks_view(path@) =~= pv);
        let lit = string_of(&decimal(i));
        let arm = vec![
            Tok::Literal(lit),
            Tok::Punct('=', true),
            Tok::Punct('>', false),
            ident("Some"),
            Tok::Group(Delimiter::Parenthesis, path),
            Tok::Punct(',', false),
        ];
        assert(toks_view(arm@) =~= spec_decode_arm(i as nat, vv[i as int]));
        append_toks(&mut out, &arm);
        i = i + 1;
    }
    out
}

fn fieldless_decode(name: &str, variants: &Vec<String>) -> (r: Vec<Tok>)
    ensures
        toks_view(r@) == spec_fieldless_decode(name@, crate::types::strings_view(variants@)),
{
    proof {
        reveal_strlit("source");
        reveal_strlit("_");
        reveal_strlit("None");
        reveal_strlit("unsafe");
        reveal_strlit("fn");
        reveal_strlit("decode");
        reveal_strlit("Option");
        reveal_strlit("Self");
        reveal_strlit("match");
    }
    let mut ig = vec![Tok::Punct('<', false)];
    assert(toks_view(ig@) =~= seq![SpecTok::Punct('<', false)]);
    append_toks(&mut ig, &lifetime("_dšč"));
    {
        let v = vec![Tok::Punct('>', false)];
        assert(toks_view(v@) =~= seq![SpecTok::Punct('>', false)]);
        append_toks(&mut ig, &v);
    }
    let mut trait_path = path2("co3", "Decode");
    append_toks(&mut trait_path, &ig);
    let mut params = vec![ident("source"), Tok::Punct(':', false)];
    assert(toks_view(params@) =~= seq![SpecTok::Ident("source"@), SpecTok::Punct(':', false)]);
    append_toks(&mut params, &self_c_type());
    {
        let v = vec![Tok::Punct(',', false)];
        assert(toks_view(v@) =~= seq![SpecTok::Punct(',', false)]);
        append_toks(&mut params, &v);
    }
    append_toks(&mut params, &store_param());
    let ghost pv = toks_view(params@);
    let mut arms = decode_arms(variants);
    {
        let v = vec![ident("_"), Tok::Punct('=', true), Tok::Punct('>', false), ident("None")];
        assert(toks_view(v@) =~= seq![
        SpecTok::Ident("_"@),
        SpecTok::Punct('=', true),
        SpecTok::Punct('>', false),
        SpecTok::Ident("None"@),
    ]);
        append_toks(&mut arms, &v);
    }
    let ghost av = toks_view(arms@);
    let mut body = unit_store();
    {
        let v = vec![ident("unsafe"), ident("fn"), ident("decode"), Tok::Punct('<', false)];
        assert(toks_view(v@) =~= seq![
        SpecTok::Ident("unsafe"@),
        SpecTok::Ident("fn"@),
        SpecTok::Ident("decode"@),
        SpecTok::Punct('<', false),
    ]);
        append_toks(&mut body, &v);
    }
    append_toks(&mut body, &lifetime("_išč"));
    {
        let v = vec![Tok::Punct(':', false)];
        assert(toks_view(v@) =~= seq![SpecTok::Punct(':', false)]);
        append_toks(&mut body, &v);
    }
    append_toks(&mut body, &lifetime("_dšč"));
    {
        let v = vec![Tok::Punct('>', false), Tok::Group(Delimiter::Parenthesis, params)];
        assert(toks_view(v@) =~= seq![
        SpecTok::Punct('>', false),
        SpecTok::Group(Delimiter::Parenthesis, pv),
    ]);
        append_toks(&mut body, &v);
    }
    append_toks(&mut body, &arrow());
    let mtch = vec![ident("match"), ident("source"), Tok::Group(Delimiter::Brace, arms)];
    let ghost mv = seq![SpecTok::Ident("match"@), SpecTok::Ident("source"@), SpecTok::Group(Delimiter::Brace, av)];
    assert(toks_view(mtch@) =~= mv);
    {
        let v = vec![ident("Option"), Tok::Punct('<', false), ident("Self"), Tok::Punct('>', false), Tok::Group(Delimiter::Brace, mtch)];
        assert(toks_view(v@) =~= seq![
            SpecTok::Ident("Option"@),
            SpecTok::Punct('<', false),
            SpecTok::Ident("Self"@),
            SpecTok::Punct('>', false),
            SpecTok::Group(Delimiter::Brace, mv),
        ]);
        append_toks(&mut body, &v);
    }
    let e: Vec<Tok> = Vec::new();
    assert(toks_view(e@) =~= Seq::<SpecTok>::empty());
    let r = impl_block(&ig, &trait_path, name, &e, &e, body);
    assert(toks_view(r@) =~= spec_fieldless_decode(name@, crate::types::strings_view(variants@)));
    r
}

/// What an enum without a `#[repr]` whose variants have no fields derives,
/// from its name and its variants' names (see `spec_fieldless_enum`).
pub fn derive_no_repr_fieldless_enum(name: &str, variants: &Vec<String>) -> (r: Vec<Tok>)
    ensures
        toks_view(r@) == spec_fieldless_enum(name@, crate::types::strings_view(variants@)),
{
    let repr = infer_repr(variants.len());
    let e: Vec<Tok> = Vec::new();
    let no_fields: Vec<Vec<Tok>> = Vec::new();
    let no_flags: Vec<bool> = Vec::new();
    assert(toks_view(e@) =~= Seq::<SpecTok>::empty());
    assert(lists_view(no_fields@) =~= Seq::<Seq<SpecTok>>::empty());
    assert(no_flags@ =~= Seq::<bool>::empty());
    let mut out = gen_ir_impl(name, repr.name(), &no_fields, &no_flags, &e, &e, &e, &e);
    append_toks(&mut out, &fieldless_encode(name, repr));
    append_toks(&mut out, &fieldless_decode(name, variants));
    append_toks(&mut out, &gen_enum_niche_ir(repr, name, &e, &e, &e, &e, variants.len(), true));
    append_toks(&mut out, &gen_out_ptr_impls(name, &e, &e, &e, true));
    out
}

} // verus!
