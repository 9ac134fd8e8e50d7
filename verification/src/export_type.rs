//! What an opaque type exported from an `ffi!` block gets, in an anonymous
//! constant under its `#[cfg]` attributes: its opaque representation, its
//! tag where it has an id, its drop export and checks, and the impls by
//! which it crosses the boundary as itself (owned encoding and decoding with
//! an empty store, `Encode`, `Decode`, and casts of its borrows to itself),
//! followed by the exports of its methods.
use vstd::prelude::*;
use crate::codegen::{ident, impl_block, path2, path3, spec_impl_block, spec_path2, spec_path3};
use crate::enum_codegen::spec_lifetime;
use crate::preprocess::{append_toks, copy_range};
use crate::struct_codegen::lifetime;
use crate::tokens::{Delimiter, SpecTok, Tok, toks_view};

verus! {

/// The impl generics of `DecodeOwned<'_dšč>`: the type's impl generics
/// `ig` (as `split_for_impl` gives them, nothing or `<..>`) with `'_dšč`
/// first.
pub open spec fn spec_decode_ig(ig: Seq<SpecTok>) -> Seq<SpecTok> {
    if ig.len() < 2 {
        seq![SpecTok::Punct('<', false)] + spec_lifetime("_dšč"@) + seq![SpecTok::Punct('>', false)]
    } else {
        seq![SpecTok::Punct('<', false)] + spec_lifetime("_dšč"@) + seq![SpecTok::Punct(',', false)] + ig.subrange(
            1,
            ig.len() - 1,
        ) + seq![SpecTok::Punct('>', false)]
    }
}

/// `type Store = (); #[inline(always)]`
pub open spec fn spec_unit_store_inline() -> Seq<SpecTok> {
    seq![
        SpecTok::Ident("type"@),
        SpecTok::Ident("Store"@),
        SpecTok::Punct('=', false),
        SpecTok::Group(Delimiter::Parenthesis, Seq::empty()),
        SpecTok::Punct(';', false),
        SpecTok::Punct('#', false),
        SpecTok::Group(
            Delimiter::Bracket,
            seq![SpecTok::Ident("inline"@), SpecTok::Group(Delimiter::Parenthesis, seq![SpecTok::Ident("always"@)])],
        ),
    ]
}

/// `(): &mut ()`
pub open spec fn spec_unit_store_param() -> Seq<SpecTok> {
    seq![
        SpecTok::Group(Delimiter::Parenthesis, Seq::empty()),
        SpecTok::Punct(':', false),
        SpecTok::Punct('&', false),
        SpecTok::Ident("mut"@),
        SpecTok::Group(Delimiter::Parenthesis, Seq::empty()),
    ]
}

/// The body of `EncodeOwned`: an empty store, and `soft_encode` gives the
/// value itself.
pub open spec fn spec_encode_owned_body() -> Seq<SpecTok> {
    spec_unit_store_inline() + seq![SpecTok::Ident("fn"@), SpecTok::Ident("soft_encode"@), SpecTok::Punct('<', false)]
        + spec_lifetime("itm"@) + seq![
        SpecTok::Punct('>', false),
        SpecTok::Group(Delimiter::Parenthesis, seq![SpecTok::Ident("self"@), SpecTok::Punct(',', false)] + spec_unit_store_param()),
        SpecTok::Punct('-', true),
        SpecTok::Punct('>', false),
        SpecTok::Ident("Self"@),
        SpecTok::Punct(':', true),
        SpecTok::Punct(':', false),
        SpecTok::Ident("CType"@),
        SpecTok::Ident("where"@),
        SpecTok::Ident("Self"@),
        SpecTok::Punct(':', false),
    ] + spec_lifetime("itm"@) + seq![SpecTok::Group(Delimiter::Brace, seq![SpecTok::Ident("self"@)])]
}

/// The body of `DecodeOwned`: an empty store, and `soft_decode` gives the
/// source itself.
pub open spec fn spec_decode_owned_body() -> Seq<SpecTok> {
    spec_unit_store_inline() + seq![
        SpecTok::Ident("unsafe"@),
        SpecTok::Ident("fn"@),
        SpecTok::Ident("soft_decode"@),
        SpecTok::Punct('<', false),
    ] + spec_lifetime("_išč"@) + seq![SpecTok::Punct(':', false)] + spec_lifetime("_dšč"@) + seq![
        SpecTok::Punct('>', false),
        SpecTok::Group(
            Delimiter::Parenthesis,
            seq![
                SpecTok::Ident("source"@),
                SpecTok::Punct(':', false),
                SpecTok::Ident("Self"@),
                SpecTok::Punct(':', true),
                SpecTok::Punct(':', false),
                SpecTok::Ident("CType"@),
                SpecTok::Punct(',', false),
            ] + spec_unit_store_param(),
        ),
        SpecTok::Punct('-', true),
        SpecTok::Punct('>', false),
        SpecTok::Ident("Option"@),
        SpecTok::Punct('<', false),
        SpecTok::Ident("Self"@),
        SpecTok::Punct('>', false),
        SpecTok::Group(
            Delimiter::Brace,
            seq![SpecTok::Ident("Some"@), SpecTok::Group(Delimiter::Parenthesis, seq![SpecTok::Ident("source"@)])],
        ),
    ]
}

/// `type name = Self;`
pub open spec fn spec_self_alias(name: Seq<char>) -> Seq<SpecTok> {
    seq![SpecTok::Ident("type"@), SpecTok::Ident(name), SpecTok::Punct('=', false), SpecTok::Ident("Self"@), SpecTok::Punct(';', false)]
}

/// The impls by which the type crosses the boundary as itself.
pub open spec fn spec_export_type_impls(name: Seq<char>, ig: Seq<SpecTok>, tg: Seq<SpecTok>, wc: Seq<SpecTok>) -> Seq<SpecTok> {
    seq![SpecTok::Ident("unsafe"@)] + spec_impl_block(ig, spec_path3("co3"@, "stored"@, "EncodeOwned"@), name, tg, wc, spec_encode_owned_body())
        + seq![SpecTok::Ident("unsafe"@)] + spec_impl_block(
        spec_decode_ig(ig),
        spec_path3("co3"@, "stored"@, "DecodeOwned"@) + seq![SpecTok::Punct('<', false)] + spec_lifetime("_dšč"@) + seq![
            SpecTok::Punct('>', false),
        ],
        name,
        tg,
        wc,
        spec_decode_owned_body(),
    ) + spec_impl_block(ig, spec_path2("co3"@, "Encode"@), name, tg, wc, Seq::empty()) + spec_impl_block(
        ig,
        spec_path2("co3"@, "Decode"@) + seq![SpecTok::Punct('<', false)] + spec_lifetime("_"@) + seq![SpecTok::Punct('>', false)],
        name,
        tg,
        wc,
        Seq::empty(),
    ) + seq![SpecTok::Ident("unsafe"@)] + spec_impl_block(
        ig,
        spec_path3("co3"@, "borrow"@, "BorrowCast"@),
        name,
        tg,
        wc,
        spec_self_alias("AsConst"@),
    ) + seq![SpecTok::Ident("unsafe"@)] + spec_impl_block(
        ig,
        spec_path3("co3"@, "borrow"@, "BorrowCastMut"@),
        name,
        tg,
        wc,
        spec_self_alias("AsMut"@),
    )
}

/// The parts of an exported type's block that other generators make.
pub struct ExportTypeParts {
    pub cfg_attrs: Vec<Tok>,
    pub opaque: Vec<Tok>,
    pub tag_impl: Vec<Tok>,
    pub drop: Vec<Tok>,
    pub size_check: Vec<Tok>,
    pub drop_check: Vec<Tok>,
    pub dispatch: Vec<Tok>,
}

/// An exported type's block: under its `#[cfg]` attributes,
/// `const _: () = { opaque tag drop size_check drop_check impls dispatch };`.
pub open spec fn spec_export_type_block(
    name: Seq<char>,
    ig: Seq<SpecTok>,
    tg: Seq<SpecTok>,
    wc: Seq<SpecTok>,
    cfg_attrs: Seq<SpecTok>,
    opaque: Seq<SpecTok>,
    tag_impl: Seq<SpecTok>,
    drop: Seq<SpecTok>,
    size_check: Seq<SpecTok>,
    drop_check: Seq<SpecTok>,
    dispatch: Seq<SpecTok>,
) -> Seq<SpecTok> {
    cfg_attrs + seq![
        SpecTok::Ident("const"@),
        SpecTok::Ident("_"@),
        SpecTok::Punct(':', false),
        SpecTok::Group(Delimiter::Parenthesis, Seq::empty()),
        SpecTok::Punct('=', false),
        SpecTok::Group(
            Delimiter::Brace,
            opaque + tag_impl + drop + size_check + drop_check + spec_export_type_impls(name, ig, tg, wc) + dispatch,
        ),
        SpecTok::Punct(';', false),
    ]
}

fn decode_ig(ig: &Vec<Tok>) -> (r: Vec<Tok>)
    ensures
        toks_view(r@) == spec_decode_ig(toks_view(ig@)),
{
    let mut r = vec![Tok::Punct('<', false)];
    assert(toks_view(r@) =~= seq![SpecTok::Punct('<', false)]);
    append_toks(&mut r, &lifetime("_dšč"));
    if ig.len() >= 2 {
        let c = vec![Tok::Punct(',', false)];
        assert(toks_view(c@) =~= seq![SpecTok::Punct(',', false)]);
        append_toks(&mut r, &c);
        append_toks(&mut r, &copy_range(ig, 1, ig.len() - 1));
    }
    let g = vec![Tok::Punct('>', false)];
    assert(toks_view(g@) =~= seq![SpecTok::Punct('>', false)]);
    append_toks(&mut r, &g);
    r
}

fn unit_store_inline() -> (r: Vec<Tok>)
    ensures
        toks_view(r@) == spec_unit_store_inline(),
{
    proof {
        reveal_strlit("type");
        reveal_strlit("Store");
        reveal_strlit("inline");
        reveal_strlit("always");
    }
    let e: Vec<Tok> = Vec::new();
    assert(toks_view(e@) =~= Seq::<SpecTok>::empty());
    let always = vec![ident("always")];
    assert(toks_view(always@) =~= seq![SpecTok::Ident("always"@)]);
    let inl = vec![ident("inline"), Tok::Group(Delimiter::Parenthesis, always)];
    assert(toks_view(inl@) =~= seq![SpecTok::Ident("inline"@), SpecTok::Group(Delimiter::Parenthesis, seq![SpecTok::Ident("always"@)])]);
    let ghost iv = toks_view(inl@);
    let r = vec![
        ident("type"),
        ident("Store"),
        Tok::Punct('=', false),
        Tok::Group(Delimiter::Parenthesis, e),
        Tok::Punct(';', false),
        Tok::Punct('#', false),
        Tok::Group(Delimiter::Bracket, inl),
    ];
    assert(toks_view(r@) =~= spec_unit_store_inline());
    r
}

fn unit_store_param() -> (r: Vec<Tok>)
    ensures
        toks_view(r@) == spec_unit_store_param(),
{
    proof {
        reveal_strlit("mut");
    }
    let e1: Vec<Tok> = Vec::new();
    assert(toks_view(e1@) =~= Seq::<SpecTok>::empty());
    let e2: Vec<Tok> = Vec::new();
    assert(toks_view(e2@) =~= Seq::<SpecTok>::empty());
    let r = vec![
        Tok::Group(Delimiter::Parenthesis, e1),
        Tok::Punct(':', false),
        Tok::Punct('&', false),
        ident("mut"),
        Tok::Group(Delimiter::Parenthesis, e2),
    ];
    assert(toks_view(r@) =~= spec_unit_store_param());
    r
}

fn encode_owned_body() -> (r: Vec<Tok>)
    ensures
        toks_view(r@) == spec_encode_owned_body(),
{
    proof {
        reveal_strlit("fn");
        reveal_strlit("soft_encode");
        reveal_strlit("self");
        reveal_strlit("Self");
        reveal_strlit("CType");
        reveal_strlit("where");
    }
    let mut r = unit_store_inline();
    let h = vec![ident("fn"), ident("soft_encode"), Tok::Punct('<', false)];
    assert(toks_view(h@) =~= seq![SpecTok::Ident("fn"@), SpecTok::Ident("soft_encode"@), SpecTok::Punct('<', false)]);
    append_toks(&mut r, &h);
    append_toks(&mut r, &lifetime("itm"));
    let mut ps = vec![ident("self"), Tok::Punct(',', false)];
    assert(toks_view(ps@) =~= seq![SpecTok::Ident("self"@), SpecTok::Punct(',', false)]);
    append_toks(&mut ps, &unit_store_param());
    let ghost psv = toks_view(ps@);
    let m = vec![
        Tok::Punct('>', false),
        Tok::Group(Delimiter::Parenthesis, ps),
        Tok::Punct('-', true),
        Tok::Punct('>', false),
        ident("Self"),
        Tok::Punct(':', true),
        Tok::Punct(':', false),
        ident("CType"),
        ident("where"),
        ident("Self"),
        Tok::Punct(':', false),
    ];
    assert(toks_view(m@) =~= seq![
        SpecTok::Punct('>', false),
        SpecTok::Group(Delimiter::Parenthesis, psv),
        SpecTok::Punct('-', true),
        SpecTok::Punct('>', false),
        SpecTok::Ident("Self"@),
        SpecTok::Punct(':', true),
        SpecTok::Punct(':', false),
        SpecTok::Ident("CType"@),
        SpecTok::Ident("where"@),
        SpecTok::Ident("Self"@),
        SpecTok::Punct(':', false),
    ]);
    append_toks(&mut r, &m);
    append_toks(&mut r, &lifetime("itm"));
    let sv = vec![ident("self")];
    assert(toks_view(sv@) =~= seq![SpecTok::Ident("self"@)]);
    let b = vec![Tok::Group(Delimiter::Brace, sv)];
    assert(toks_view(b@) =~= seq![SpecTok::Group(Delimiter::Brace, seq![SpecTok::Ident("self"@)])]);
    append_toks(&mut r, &b);
    r
}

fn decode_owned_body() -> (r: Vec<Tok>)
    ensures
        toks_view(r@) == spec_decode_owned_body(),
{
    proof {
        reveal_strlit("unsafe");
        reveal_strlit("fn");
        reveal_strlit("soft_decode");
        reveal_strlit("source");
        reveal_strlit("Self");
        reveal_strlit("CType");
        reveal_strlit("Option");
        reveal_strlit("Some");
    }
    let mut r = unit_store_inline();
    let h = vec![ident("unsafe"), ident("fn"), ident("soft_decode"), Tok::Punct('<', false)];
    assert(toks_view(h@) =~= seq![
        SpecTok::Ident("unsafe"@),
        SpecTok::Ident("fn"@),
        SpecTok::Ident("soft_decode"@),
        SpecTok::Punct('<', false),
    ]);
    append_toks(&mut r, &h);
    append_toks(&mut r, &lifetime("_išč"));
    let c = vec![Tok::Punct(':', false)];
    assert(toks_view(c@) =~= seq![SpecTok::Punct(':', false)]);
    append_toks(&mut r, &c);
    append_toks(&mut r, &lifetime("_dšč"));
    let mut ps = vec![
        ident("source"),
        Tok::Punct(':', false),
        ident("Self"),
        Tok::Punct(':', true),
        Tok::Punct(':', false),
        ident("CType"),
        Tok::Punct(',', false),
    ];
    assert(toks_view(ps@) =~= seq![
        SpecTok::Ident("source"@),
        SpecTok::Punct(':', false),
        SpecTok::Ident("Self"@),
        SpecTok::Punct(':', true),
        SpecTok::Punct(':', false),
        SpecTok::Ident("CType"@),
        SpecTok::Punct(',', false),
    ]);
    append_toks(&mut ps, &unit_store_param());
    let ghost psv = toks_view(ps@);
    let src = vec![ident("source")];
    assert(toks_view(src@) =~= seq![SpecTok::Ident("source"@)]);
    let body = vec![ident("Some"), Tok::Group(Delimiter::Parenthesis, src)];
    assert(toks_view(body@) =~= seq![SpecTok::Ident("Some"@), SpecTok::Group(Delimiter::Parenthesis, seq![SpecTok::Ident("source"@)])]);
    let ghost bv = toks_view(body@);
    let m = vec![
        Tok::Punct('>', false),
        Tok::Group(Delimiter::Parenthesis, ps),
        Tok::Punct('-', true),
        Tok::Punct('>', false),
        ident("Option"),
        Tok::Punct('<', false),
        ident("Self"),
        Tok::Punct('>', false),
        Tok::Group(Delimiter::Brace, body),
    ];
    assert(toks_view(m@) =~= seq![
        SpecTok::Punct('>', false),
        SpecTok::Group(Delimiter::Parenthesis, psv),
        SpecTok::Punct('-', true),
        SpecTok::Punct('>', false),
        SpecTok::Ident("Option"@),
        SpecTok::Punct('<', false),
        SpecTok::Ident("Self"@),
        SpecTok::Punct('>', false),
        SpecTok::Group(Delimiter::Brace, bv),
    ]);
    append_toks(&mut r, &m);
    r
}

fn self_alias(name: &str) -> (r: Vec<Tok>)
    ensures
        toks_view(r@) == spec_self_alias(name@),
{
    proof {
        reveal_strlit("type");
        reveal_strlit("Self");
    }
    let r = vec![ident("type"), ident(name), Tok::Punct('=', false), ident("Self"), Tok::Punct(';', false)];
    assert(toks_view(r@) =~= spec_self_alias(name@));
    r
}

fn with_unsafe(block: Vec<Tok>) -> (r: Vec<Tok>)
    ensures
        toks_view(r@) == seq![SpecTok::Ident("unsafe"@)] + toks_view(block@),
{
    proof {
        reveal_strlit("unsafe");
    }
    let mut r = vec![ident("unsafe")];
    assert(toks_view(r@) =~= seq![SpecTok::Ident("unsafe"@)]);
    append_toks(&mut r, &block);
    r
}

fn generic_trait(mut path: Vec<Tok>, lt: &str) -> (r: Vec<Tok>)
    ensures
        toks_view(r@) == toks_view(path@) + seq![SpecTok::Punct('<', false)] + spec_lifetime(lt@) + seq![SpecTok::Punct('>', false)],
{
    let a = vec![Tok::Punct('<', false)];
    assert(toks_view(a@) =~= seq![SpecTok::Punct('<', false)]);
    append_toks(&mut path, &a);
    append_toks(&mut path, &lifetime(lt));
    let b = vec![Tok::Punct('>', false)];
    assert(toks_view(b@) =~= seq![SpecTok::Punct('>', false)]);
    append_toks(&mut path, &b);
    path
}

/// An exported type's block (see `spec_export_type_block`), from its name,
/// the parts of its generics as `split_for_impl` gives them, and the parts
/// that other generators make.
pub fn gen_export_type_block(name: &str, ig: &Vec<Tok>, tg: &Vec<Tok>, wc: &Vec<Tok>, parts: &ExportTypeParts) -> (r: Vec<Tok>)
    ensures
        toks_view(r@) == spec_export_type_block(
            name@,
            toks_view(ig@),
            toks_view(tg@),
            toks_view(wc@),
            toks_view(parts.cfg_attrs@),
            toks_view(parts.opaque@),
            toks_view(parts.tag_impl@),
            toks_view(parts.drop@),
            toks_view(parts.size_check@),
            toks_view(parts.drop_check@),
            toks_view(parts.dispatch@),
        ),
{
    proof {
        reveal_strlit("const");
        reveal_strlit("_");
    }
    let mut inner: Vec<Tok> = Vec::new();
    append_toks(&mut inner, &parts.opaque);
    append_toks(&mut inner, &parts.tag_impl);
    append_toks(&mut inner, &parts.drop);
    append_toks(&mut inner, &parts.size_check);
    append_toks(&mut inner, &parts.drop_check);
    append_toks(&mut inner, &with_unsafe(impl_block(ig, &path3("co3", "stored", "EncodeOwned"), name, tg, wc, encode_owned_body())));
    append_toks(
        &mut inner,
        &with_unsafe(impl_block(&decode_ig(ig), &generic_trait(path3("co3", "stored", "DecodeOwned"), "_dšč"), name, tg, wc, decode_owned_body())),
    );
    let e1: Vec<Tok> = Vec::new();
    assert(toks_view(e1@) =~= Seq::<SpecTok>::empty());
    append_toks(&mut inner, &impl_block(ig, &path2("co3", "Encode"), name, tg, wc, e1));
    let e2: Vec<Tok> = Vec::new();
    assert(toks_view(e2@) =~= Seq::<SpecTok>::empty());
    append_toks(&mut inner, &impl_block(ig, &generic_trait(path2("co3", "Decode"), "_"), name, tg, wc, e2));
    append_toks(&mut inner, &with_unsafe(impl_block(ig, &path3("co3", "borrow", "BorrowCast"), name, tg, wc, self_alias("AsConst"))));
    append_toks(&mut inner, &with_unsafe(impl_block(ig, &path3("co3", "borrow", "BorrowCastMut"), name, tg, wc, self_alias("AsMut"))));
    append_toks(&mut inner, &parts.dispatch);
    let ghost iv = toks_view(inner@);
    assert(iv =~= toks_view(parts.opaque@) + toks_view(parts.tag_impl@) + toks_view(parts.drop@) + toks_view(parts.size_check@)
        + toks_view(parts.drop_check@) + spec_export_type_impls(name@, toks_view(ig@), toks_view(tg@), toks_view(wc@))
        + toks_view(parts.dispatch@));
    let mut out: Vec<Tok> = Vec::new();
    append_toks(&mut out, &parts.cfg_attrs);
    let e3: Vec<Tok> = Vec::new();
    assert(toks_view(e3@) =~= Seq::<SpecTok>::empty());
    let tail = vec![
        ident("const"),
        ident("_"),
        Tok::Punct(':', false),
        Tok::Group(Delimiter::Parenthesis, e3),
        Tok::Punct('=', false),
        Tok::Group(Delimiter::Brace, inner),
        Tok::Punct(';', false),
    ];
    assert(toks_view(tail@) =~= seq![
        SpecTok::Ident("const"@),
        SpecTok::Ident("_"@),
        SpecTok::Punct(':', false),
        SpecTok::Group(Delimiter::Parenthesis, Seq::empty()),
        SpecTok::Punct('=', false),
        SpecTok::Group(Delimiter::Brace, iv),
        SpecTok::Punct(';', false),
    ]);
    append_toks(&mut out, &tail);
    out
}

} // verus!
