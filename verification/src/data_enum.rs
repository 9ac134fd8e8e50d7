//! What an enum with data and without a `#[repr]` derives: its `#[repr(C)]`
//! union, its representation, niche, encoding and decoding, and, where it
//! is not local, its out-pointer impls.
use vstd::prelude::*;
use crate::codegen::{
    gen_ir_impl, gen_out_ptr_impls, gen_store_types, ident, impl_block, lists_view, path2, path3,
    spec_impl_block, spec_ir_impl, spec_out_ptr_impls, spec_path2, spec_path3, spec_store_types,
};
use crate::enum_codegen::{
    gen_enum_niche_ir, spec_arrow, spec_enum_niche_ir, spec_lifetime, spec_self_c_type,
};
use crate::layout::{infer_repr, spec_infer_repr};
use crate::preprocess::append_toks;
use crate::repr::spec_primitive_name;
use crate::repr_c::{
    DataVariant, SpecDataVariant, field_types_of, gen_data_enum, repr_c_name, spec_data_enum,
    spec_field_flags, spec_field_types, spec_repr_c_name, spec_variant_struct_name, variant_struct_name,
    variants_view,
};
use crate::text::{decimal, spec_decimal, string_of};
use crate::tokens::{Delimiter, SpecTok, Tok, toks_view};

verus! {

/// `<T as co3::Encode>::Store`, or `()` for a variant without data.
pub open spec fn spec_rust_store(v: SpecDataVariant) -> Seq<SpecTok> {
    match v.field {
        None => seq![SpecTok::Group(Delimiter::Parenthesis, Seq::empty())],
        Some(t) => seq![SpecTok::Punct('<', false)] + t + seq![SpecTok::Ident("as"@)] + spec_path2("co3"@, "Encode"@)
            + seq![SpecTok::Punct('>', false), SpecTok::Punct(':', true), SpecTok::Punct(':', false), SpecTok::Ident("Store"@)],
    }
}

/// `<T as co3::Decode<'_dšč>>::Store`, or `()` for a variant without data.
pub open spec fn spec_ffi_store(v: SpecDataVariant) -> Seq<SpecTok> {
    match v.field {
        None => seq![SpecTok::Group(Delimiter::Parenthesis, Seq::empty())],
        Some(t) => seq![SpecTok::Punct('<', false)] + t + seq![SpecTok::Ident("as"@)] + spec_path2("co3"@, "Decode"@)
            + seq![SpecTok::Punct('<', false)] + spec_lifetime("_dšč"@) + seq![
            SpecTok::Punct('>', false),
            SpecTok::Punct('>', false),
            SpecTok::Punct(':', true),
            SpecTok::Punct(':', false),
            SpecTok::Ident("Store"@),
        ],
    }
}

/// `T: trait_path,` for each of the first `n` field types that mentions a
/// generic parameter.
pub open spec fn spec_trait_bounds(tys: Seq<Seq<SpecTok>>, flags: Seq<bool>, n: int, trait_path: Seq<SpecTok>) -> Seq<SpecTok>
    decreases n,
{
    if n <= 0 || n > tys.len() {
        Seq::empty()
    } else {
        spec_trait_bounds(tys, flags, n - 1, trait_path) + if 0 <= n - 1 < flags.len() && flags[n - 1] {
            tys[n - 1] + seq![SpecTok::Punct(':', false)] + trait_path + seq![SpecTok::Punct(',', false)]
        } else {
            Seq::empty()
        }
    }
}

/// `co3::Decode<'_dšč>`
pub open spec fn spec_decode_path() -> Seq<SpecTok> {
    spec_path2("co3"@, "Decode"@) + seq![SpecTok::Punct('<', false)] + spec_lifetime("_dšč"@) + seq![SpecTok::Punct('>', false)]
}

/// `store: &'_išč mut Self::Store`
pub open spec fn spec_store_arg() -> Seq<SpecTok> {
    seq![SpecTok::Ident("store"@), SpecTok::Punct(':', false), SpecTok::Punct('&', false)] + spec_lifetime("_išč"@)
        + seq![
        SpecTok::Ident("mut"@),
        SpecTok::Ident("Self"@),
        SpecTok::Punct(':', true),
        SpecTok::Punct(':', false),
        SpecTok::Ident("Store"@),
    ]
}

/// `=>`
pub open spec fn spec_fat_arrow() -> Seq<SpecTok> {
    seq![SpecTok::Punct('=', true), SpecTok::Punct('>', false)]
}

/// `Self::V`
pub open spec fn spec_self_variant(v: Seq<char>) -> Seq<SpecTok> {
    seq![SpecTok::Ident("Self"@), SpecTok::Punct(':', true), SpecTok::Punct(':', false), SpecTok::Ident(v)]
}

/// `&mut store.i`
pub open spec fn spec_store_slot(i: nat) -> Seq<SpecTok> {
    seq![
        SpecTok::Punct('&', false),
        SpecTok::Ident("mut"@),
        SpecTok::Ident("store"@),
        SpecTok::Punct('.', false),
        SpecTok::Literal(spec_decimal(i)),
    ]
}

/// The arm that encodes variant `i`, followed by a comma: its foreign union
/// holding the variant's struct with the tag `i` (and the encoded field,
/// stored in slot `i`).
pub open spec fn spec_encode_arm(e: Seq<char>, i: nat, v: SpecDataVariant) -> Seq<SpecTok> {
    let tag = seq![SpecTok::Ident("tag"@), SpecTok::Punct(':', false), SpecTok::Literal(spec_decimal(i))];
    let sname = spec_variant_struct_name(e, v.name);
    let arm = match v.field {
        None => spec_self_variant(v.name) + spec_fat_arrow() + seq![
            SpecTok::Ident(spec_repr_c_name(e)),
            SpecTok::Group(
                Delimiter::Brace,
                seq![
                    SpecTok::Ident(v.name),
                    SpecTok::Punct(':', false),
                    SpecTok::Ident(sname),
                    SpecTok::Group(Delimiter::Brace, tag),
                ],
            ),
        ],
        Some(_) => {
            let value = tag + seq![SpecTok::Punct(',', false), SpecTok::Ident("value"@), SpecTok::Punct(':', false)]
                + spec_path3("co3"@, "Encode"@, "encode"@) + seq![
                SpecTok::Group(
                    Delimiter::Parenthesis,
                    seq![SpecTok::Ident("payload"@), SpecTok::Punct(',', false)] + spec_store_slot(i),
                ),
            ];
            spec_self_variant(v.name) + seq![
                SpecTok::Group(Delimiter::Parenthesis, seq![SpecTok::Ident("payload"@)]),
            ] + spec_fat_arrow() + seq![
                SpecTok::Group(
                    Delimiter::Brace,
                    seq![
                        SpecTok::Ident(spec_repr_c_name(e)),
                        SpecTok::Group(
                            Delimiter::Brace,
                            seq![
                                SpecTok::Ident(v.name),
                                SpecTok::Punct(':', false),
                                SpecTok::Ident(sname),
                                SpecTok::Group(Delimiter::Brace, value),
                            ],
                        ),
                    ],
                ),
            ]
        },
    };
    arm + seq![SpecTok::Punct(',', false)]
}

/// The arm that decodes tag `i`, followed by a comma: the variant, with its
/// field decoded from the union's variant struct and slot `i`.
pub open spec fn spec_decode_arm(i: nat, v: SpecDataVariant) -> Seq<SpecTok> {
    let head = seq![SpecTok::Literal(spec_decimal(i))] + spec_fat_arrow();
    let arm = match v.field {
        None => head + seq![
            SpecTok::Ident("Some"@),
            SpecTok::Group(Delimiter::Parenthesis, spec_self_variant(v.name)),
        ],
        Some(_) => {
            let read = seq![
                SpecTok::Ident("source"@),
                SpecTok::Punct('.', false),
                SpecTok::Ident(v.name),
                SpecTok::Punct('.', false),
                SpecTok::Ident("value"@),
            ];
            let decode = spec_path3("co3"@, "Decode"@, "decode"@) + seq![
                SpecTok::Group(
                    Delimiter::Parenthesis,
                    seq![SpecTok::Ident("value"@), SpecTok::Punct(',', false)] + spec_store_slot(i),
                ),
                SpecTok::Punct('.', false),
                SpecTok::Ident("map"@),
                SpecTok::Group(Delimiter::Parenthesis, spec_self_variant(v.name)),
            ];
            head + seq![
                SpecTok::Group(
                    Delimiter::Brace,
                    seq![
                        SpecTok::Ident("let"@),
                        SpecTok::Ident("value"@),
                        SpecTok::Punct('=', false),
                        SpecTok::Ident("unsafe"@),
                        SpecTok::Group(Delimiter::Brace, read),
                        SpecTok::Punct(';', false),
                        SpecTok::Ident("unsafe"@),
                        SpecTok::Group(Delimiter::Brace, decode),
                    ],
                ),
            ]
        },
    };
    arm + seq![SpecTok::Punct(',', false)]
}

/// The encode arms of the first `n` variants.
pub open spec fn spec_encode_arms(e: Seq<char>, vs: Seq<SpecDataVariant>, n: int) -> Seq<SpecTok>
    decreases n,
{
    if n <= 0 || n > vs.len() {
        Seq::empty()
    } else {
        spec_encode_arms(e, vs, n - 1) + spec_encode_arm(e, (n - 1) as nat, vs[n - 1])
    }
}

/// The decode arms of the first `n` variants.
pub open spec fn spec_decode_arms(vs: Seq<SpecDataVariant>, n: int) -> Seq<SpecTok>
    decreases n,
{
    if n <= 0 || n > vs.len() {
        Seq::empty()
    } else {
        spec_decode_arms(vs, n - 1) + spec_decode_arm((n - 1) as nat, vs[n - 1])
    }
}

/// The stores of the first `n` variants, Rust side.
pub open spec fn spec_rust_stores(vs: Seq<SpecDataVariant>) -> Seq<Seq<SpecTok>> {
    Seq::new(vs.len(), |i: int| spec_rust_store(vs[i]))
}

/// The stores of the variants, foreign side.
pub open spec fn spec_ffi_stores(vs: Seq<SpecDataVariant>) -> Seq<Seq<SpecTok>> {
    Seq::new(vs.len(), |i: int| spec_ffi_store(vs[i]))
}

/// `unsafe { *core::ptr::from_ref(&source).cast::<R>() }`: the tag, read
/// from the first field of whichever variant struct the union holds.
pub open spec fn spec_tag_read(repr: Seq<char>) -> Seq<SpecTok> {
    seq![
        SpecTok::Ident("unsafe"@),
        SpecTok::Group(
            Delimiter::Brace,
            seq![SpecTok::Punct('*', false)] + spec_path3("core"@, "ptr"@, "from_ref"@) + seq![
                SpecTok::Group(Delimiter::Parenthesis, seq![SpecTok::Punct('&', false), SpecTok::Ident("source"@)]),
                SpecTok::Punct('.', false),
                SpecTok::Ident("cast"@),
                SpecTok::Punct(':', true),
                SpecTok::Punct(':', false),
                SpecTok::Punct('<', false),
                SpecTok::Ident(repr),
                SpecTok::Punct('>', false),
                SpecTok::Group(Delimiter::Parenthesis, Seq::empty()),
            ],
        ),
    ]
}

/// The `Encode` impl.
pub open spec fn spec_data_encode(
    e: Seq<char>,
    vs: Seq<SpecDataVariant>,
    ig: Seq<SpecTok>,
    tg: Seq<SpecTok>,
    preds: Seq<SpecTok>,
) -> Seq<SpecTok> {
    let (rust_store, _, init) = spec_store_types(vs.len(), spec_rust_stores(vs), spec_ffi_stores(vs));
    let bounds = seq![SpecTok::Ident("where"@)] + spec_trait_bounds(
        spec_field_types(vs),
        spec_field_flags(vs),
        spec_field_types(vs).len() as int,
        spec_path2("co3"@, "Encode"@),
    ) + preds;
    let body = seq![SpecTok::Ident("type"@), SpecTok::Ident("Store"@), SpecTok::Punct('=', false)] + rust_store + seq![
        SpecTok::Punct(';', false),
        SpecTok::Ident("fn"@),
        SpecTok::Ident("encode"@),
        SpecTok::Punct('<', false),
    ] + spec_lifetime("_išč"@) + seq![
        SpecTok::Punct('>', false),
        SpecTok::Group(
            Delimiter::Parenthesis,
            seq![SpecTok::Ident("self"@), SpecTok::Punct(',', false)] + spec_store_arg(),
        ),
    ] + spec_arrow() + spec_self_c_type() + seq![SpecTok::Ident("where"@), SpecTok::Ident("Self"@), SpecTok::Punct(':', false)]
        + spec_lifetime("_išč"@) + seq![
        SpecTok::Group(
            Delimiter::Brace,
            init + seq![
                SpecTok::Ident("match"@),
                SpecTok::Ident("self"@),
                SpecTok::Group(Delimiter::Brace, spec_encode_arms(e, vs, vs.len() as int)),
            ],
        ),
    ];
    spec_impl_block(ig, spec_path2("co3"@, "Encode"@), e, tg, bounds, body)
}

/// The `Decode` impl.
pub open spec fn spec_data_decode(
    e: Seq<char>,
    vs: Seq<SpecDataVariant>,
    repr: Seq<char>,
    tg: Seq<SpecTok>,
    params: Seq<SpecTok>,
    preds: Seq<SpecTok>,
) -> Seq<SpecTok> {
    let (_, ffi_store, init) = spec_store_types(vs.len(), spec_rust_stores(vs), spec_ffi_stores(vs));
    let ig = seq![SpecTok::Punct('<', false)] + spec_lifetime("_dšč"@) + seq![SpecTok::Punct(',', false)] + params
        + seq![SpecTok::Punct('>', false)];
    let bounds = seq![SpecTok::Ident("where"@), SpecTok::Ident(spec_repr_c_name(e))] + tg + seq![SpecTok::Punct(':', false)]
        + spec_lifetime("_dšč"@) + seq![SpecTok::Punct(',', false)] + spec_trait_bounds(
        spec_field_types(vs),
        spec_field_flags(vs),
        spec_field_types(vs).len() as int,
        spec_decode_path(),
    ) + preds;
    let params_list = seq![SpecTok::Ident("source"@), SpecTok::Punct(':', false)] + spec_self_c_type() + seq![
        SpecTok::Punct(',', false),
    ] + spec_store_arg();
    let arms = spec_decode_arms(vs, vs.len() as int) + seq![SpecTok::Ident("_"@)] + spec_fat_arrow() + seq![
        SpecTok::Ident("None"@),
    ];
    let body = seq![SpecTok::Ident("type"@), SpecTok::Ident("Store"@), SpecTok::Punct('=', false)] + ffi_store + seq![
        SpecTok::Punct(';', false),
        SpecTok::Ident("unsafe"@),
        SpecTok::Ident("fn"@),
        SpecTok::Ident("decode"@),
        SpecTok::Punct('<', false),
    ] + spec_lifetime("_išč"@) + seq![SpecTok::Punct(':', false)] + spec_lifetime("_dšč"@) + seq![
        SpecTok::Punct('>', false),
        SpecTok::Group(Delimiter::Parenthesis, params_list),
    ] + spec_arrow() + seq![
        SpecTok::Ident("Option"@),
        SpecTok::Punct('<', false),
        SpecTok::Ident("Self"@),
        SpecTok::Punct('>', false),
        SpecTok::Group(
            Delimiter::Brace,
            init + seq![SpecTok::Ident("match"@)] + spec_tag_read(repr) + seq![SpecTok::Group(Delimiter::Brace, arms)],
        ),
    ];
    spec_impl_block(ig, spec_decode_path(), e, tg, bounds, body)
}

/// Whether no variant has data.
pub open spec fn all_fieldless(vs: Seq<SpecDataVariant>) -> bool {
    forall|i: int| 0 <= i < vs.len() ==> (#[trigger] vs[i]).field is None
}

/// Whether no field type mentions a generic parameter.
pub open spec fn none_parameterized(flags: Seq<bool>) -> bool {
    forall|i: int| 0 <= i < flags.len() ==> !#[trigger] flags[i]
}

/// What an enum with data and without a `#[repr]` derives, from its name,
/// its variants (each without data or with one field), the parts of its
/// generics as `split_for_impl` gives them (`ig`, `tg`, the where clause
/// `wc` and its predicates `preds`), its parameter list, and whether it is
/// local: the `#[repr(C)]` union of its variant structs (tagged by the
/// smallest unsigned integer that numbers the variants); its representation
/// family and `ExternC` with that union; its niche; `Encode`, which writes
/// the variant's tag and its encoded field into the union, and `Decode`,
/// which reads the tag back and decodes the field (an unknown tag gives
/// `None`), each with one store slot per variant; and, where it is not
/// local, its out-pointer impls.
pub open spec fn spec_no_repr_data_enum(
    e: Seq<char>,
    vs: Seq<SpecDataVariant>,
    ig: Seq<SpecTok>,
    tg: Seq<SpecTok>,
    wc: Seq<SpecTok>,
    params: Seq<SpecTok>,
    preds: Seq<SpecTok>,
    local: bool,
) -> Seq<SpecTok> {
    let repr = spec_infer_repr(vs.len());
    let rname = spec_primitive_name(repr);
    spec_data_enum(e, vs, rname, ig, tg, params, preds) + spec_ir_impl(
        e,
        spec_repr_c_name(e),
        spec_field_types(vs),
        spec_field_flags(vs),
        ig,
        tg,
        wc,
        preds,
    ) + spec_enum_niche_ir(repr, e, ig, tg, wc, preds, vs.len(), all_fieldless(vs)) + spec_data_encode(e, vs, ig, tg, preds)
        + spec_data_decode(e, vs, rname, tg, params, preds) + if local {
        Seq::empty()
    } else {
        spec_out_ptr_impls(e, ig, tg, preds, none_parameterized(spec_field_flags(vs)))
    }
}


fn lifetime(name: &str) -> (r: Vec<Tok>)
    ensures
        toks_view(r@) == spec_lifetime(name@),
{
    let r = vec![Tok::Punct('\'', true), ident(name)];
    assert(toks_view(r@) =~= spec_lifetime(name@));
    r
}

fn lit(i: usize) -> (r: Tok)
    ensures
        r@ == SpecTok::Literal(spec_decimal(i as nat)),
{
    Tok::Literal(string_of(&decimal(i)))
}

fn copy(v: &Vec<Tok>) -> (r: Vec<Tok>)
    ensures
        toks_view(r@) == toks_view(v@),
{
    let mut out: Vec<Tok> = Vec::new();
    append_toks(&mut out, v);
    assert(toks_view(out@) =~= toks_view(v@));
    out
}

fn self_c_type() -> (r: Vec<Tok>)
    ensures
        toks_view(r@) == spec_self_c_type(),
{
    proof {
        reveal_strlit("Self");
        reveal_strlit("as");
        reveal_strlit("CType");
    }
    let mut out: Vec<Tok> = vec![Tok::Punct('<', false), ident("Self"), ident("as")];
    assert(toks_view(out@) =~= seq![SpecTok::Punct('<', false), SpecTok::Ident("Self"@), SpecTok::Ident("as"@)]);
    append_toks(&mut out, &path2("co3", "ExternC"));
    let tail = vec![Tok::Punct('>', false), Tok::Punct(':', true), Tok::Punct(':', false), ident("CType")];
    assert(toks_view(tail@) =~= seq![
        SpecTok::Punct('>', false),
        SpecTok::Punct(':', true),
        SpecTok::Punct(':', false),
        SpecTok::Ident("CType"@),
    ]);
    append_toks(&mut out, &tail);
    out
}

fn rust_store(v: &DataVariant) -> (r: Vec<Tok>)
    ensures
        toks_view(r@) == spec_rust_store(v@),
{
    proof {
        reveal_strlit("as");
        reveal_strlit("Store");
    }
    match &v.field {
        None => {
            let e: Vec<Tok> = Vec::new();
            assert(toks_view(e@) =~= Seq::<SpecTok>::empty());
            let r = vec![Tok::Group(Delimiter::Parenthesis, e)];
            assert(toks_view(r@) =~= spec_rust_store(v@));
            r
        },
        Some(t) => {
            let mut r = vec![Tok::Punct('<', false)];
            append_toks(&mut r, t);
            let a = vec![ident("as")];
            assert(toks_view(a@) =~= seq![SpecTok::Ident("as"@)]);
            append_toks(&mut r, &a);
            append_toks(&mut r, &path2("co3", "Encode"));
            let tail = vec![Tok::Punct('>', false), Tok::Punct(':', true), Tok::Punct(':', false), ident("Store")];
            assert(toks_view(tail@) =~= seq![
                SpecTok::Punct('>', false),
                SpecTok::Punct(':', true),
                SpecTok::Punct(':', false),
                SpecTok::Ident("Store"@),
            ]);
            append_toks(&mut r, &tail);
            assert(toks_view(r@) =~= spec_rust_store(v@));
            r
        },
    }
}

fn ffi_store(v: &DataVariant) -> (r: Vec<Tok>)
    ensures
        toks_view(r@) == spec_ffi_store(v@),
{
    proof {
        reveal_strlit("as");
        reveal_strlit("Store");
    }
    match &v.field {
        None => {
            let e: Vec<Tok> = Vec::new();
            assert(toks_view(e@) =~= Seq::<SpecTok>::empty());
            let r = vec![Tok::Group(Delimiter::Parenthesis, e)];
            assert(toks_view(r@) =~= spec_ffi_store(v@));
            r
        },
        Some(t) => {
            let mut r = vec![Tok::Punct('<', false)];
            append_toks(&mut r, t);
            let a = vec![ident("as")];
            assert(toks_view(a@) =~= seq![SpecTok::Ident("as"@)]);
            append_toks(&mut r, &a);
            append_toks(&mut r, &path2("co3", "Decode"));
            let lt = vec![Tok::Punct('<', false)];
            assert(toks_view(lt@) =~= seq![SpecTok::Punct('<', false)]);
            append_toks(&mut r, &lt);
            append_toks(&mut r, &lifetime("_dšč"));
            let tail = vec![
                Tok::Punct('>', false),
                Tok::Punct('>', false),
                Tok::Punct(':', true),
                Tok::Punct(':', false),
                ident("Store"),
            ];
            assert(toks_view(tail@) =~= seq![
                SpecTok::Punct('>', false),
                SpecTok::Punct('>', false),
                SpecTok::Punct(':', true),
                SpecTok::Punct(':', false),
                SpecTok::Ident("Store"@),
            ]);
            append_toks(&mut r, &tail);
            assert(toks_view(r@) =~= spec_ffi_store(v@));
            r
        },
    }
}

fn trait_bounds(tys: &Vec<Vec<Tok>>, flags: &Vec<bool>, trait_path: &Vec<Tok>) -> (r: Vec<Tok>)
    ensures
        toks_view(r@) == spec_trait_bounds(lists_view(tys@), flags@, tys@.len() as int, toks_view(trait_path@)),
{
    let ghost tv = lists_view(tys@);
    let mut out: Vec<Tok> = Vec::new();
    let mut i: usize = 0;
    assert(toks_view(out@) =~= Seq::<SpecTok>::empty());
    while i < tys.len()
        invariant
            i <= tys@.len(),
            tv == lists_view(tys@),
            toks_view(out@) == spec_trait_bounds(tv, flags@, i as int, toks_view(trait_path@)),
        decreases tys@.len() - i,
    {
        let ghost before = toks_view(out@);
        if i < flags.len() && flags[i] {
            append_toks(&mut out, &tys[i]);
            let c = vec![Tok::Punct(':', false)];
            assert(toks_view(c@) =~= seq![SpecTok::Punct(':', false)]);
            append_toks(&mut out, &c);
            append_toks(&mut out, trait_path);
            let k = vec![Tok::Punct(',', false)];
            assert(toks_view(k@) =~= seq![SpecTok::Punct(',', false)]);
            append_toks(&mut out, &k);
            assert(toks_view(out@) =~= before + (tv[i as int] + seq![SpecTok::Punct(':', false)] + toks_view(
                trait_path@,
            ) + seq![SpecTok::Punct(',', false)]));
        } else {
            assert(before + Seq::<SpecTok>::empty() =~= before);
        }
        i = i + 1;
    }
    out
}

fn decode_path() -> (r: Vec<Tok>)
    ensures
        toks_view(r@) == spec_decode_path(),
{
    let mut r = path2("co3", "Decode");
    let lt = vec![Tok::Punct('<', false)];
    assert(toks_view(lt@) =~= seq![SpecTok::Punct('<', false)]);
    append_toks(&mut r, &lt);
    append_toks(&mut r, &lifetime("_dšč"));
    let gt = vec![Tok::Punct('>', false)];
    assert(toks_view(gt@) =~= seq![SpecTok::Punct('>', false)]);
    append_toks(&mut r, &gt);
    r
}

fn store_arg() -> (r: Vec<Tok>)
    ensures
        toks_view(r@) == spec_store_arg(),
{
    proof {
        reveal_strlit("store");
        reveal_strlit("mut");
        reveal_strlit("Self");
        reveal_strlit("Store");
    }
    let mut out = vec![ident("store"), Tok::Punct(':', false), Tok::Punct('&', false)];
    assert(toks_view(out@) =~= seq![SpecTok::Ident("store"@), SpecTok::Punct(':', false), SpecTok::Punct('&', false)]);
    append_toks(&mut out, &lifetime("_išč"));
    let tail = vec![ident("mut"), ident("Self"), Tok::Punct(':', true), Tok::Punct(':', false), ident("Store")];
    assert(toks_view(tail@) =~= seq![
        SpecTok::Ident("mut"@),
        SpecTok::Ident("Self"@),
        SpecTok::Punct(':', true),
        SpecTok::Punct(':', false),
        SpecTok::Ident("Store"@),
    ]);
    append_toks(&mut out, &tail);
    out
}

fn fat_arrow() -> (r: Vec<Tok>)
    ensures
        toks_view(r@) == spec_fat_arrow(),
{
    let r = vec![Tok::Punct('=', true), Tok::Punct('>', false)];
    assert(toks_view(r@) =~= spec_fat_arrow());
    r
}

fn arrow() -> (r: Vec<Tok>)
    ensures
        toks_view(r@) == spec_arrow(),
{
    let r = vec![Tok::Punct('-', true), Tok::Punct('>', false)];
    assert(toks_view(r@) =~= spec_arrow());
    r
}

fn self_variant(v: &String) -> (r: Vec<Tok>)
    ensures
        toks_view(r@) == spec_self_variant(v@),
{
    proof {
        reveal_strlit("Self");
    }
    let r = vec![ident("Self"), Tok::Punct(':', true), Tok::Punct(':', false), Tok::Ident(v.clone())];
    assert(toks_view(r@) =~= spec_self_variant(v@));
    r
}

fn store_slot(i: usize) -> (r: Vec<Tok>)
    ensures
        toks_view(r@) == spec_store_slot(i as nat),
{
    proof {
        reveal_strlit("mut");
        reveal_strlit("store");
    }
    let r = vec![Tok::Punct('&', false), ident("mut"), ident("store"), Tok::Punct('.', false), lit(i)];
    assert(toks_view(r@) =~= spec_store_slot(i as nat));
    r
}

fn encode_arm(e: &str, i: usize, v: &DataVariant) -> (r: Vec<Tok>)
    ensures
        toks_view(r@) == spec_encode_arm(e@, i as nat, v@),
{
    proof {
        reveal_strlit("tag");
        reveal_strlit("value");
        reveal_strlit("payload");
    }
    let cname = repr_c_name(e);
    let sname = variant_struct_name(e, v.name.as_str());
    let tag = vec![ident("tag"), Tok::Punct(':', false), lit(i)];
    let ghost tagv = seq![SpecTok::Ident("tag"@), SpecTok::Punct(':', false), SpecTok::Literal(spec_decimal(i as nat))];
    assert(toks_view(tag@) =~= tagv);
    let mut out = self_variant(&v.name);
    match &v.field {
        None => {
            append_toks(&mut out, &fat_arrow());
            let inner = vec![Tok::Ident(v.name.clone()), Tok::Punct(':', false), Tok::Ident(sname), Tok::Group(Delimiter::Brace, tag)];
            let ghost innerv = seq![
                SpecTok::Ident(v.name@),
                SpecTok::Punct(':', false),
                SpecTok::Ident(spec_variant_struct_name(e@, v.name@)),
                SpecTok::Group(Delimiter::Brace, tagv),
            ];
            assert(toks_view(inner@) =~= innerv);
            let t = vec![Tok::Ident(cname), Tok::Group(Delimiter::Brace, inner)];
            assert(toks_view(t@) =~= seq![SpecTok::Ident(spec_repr_c_name(e@)), SpecTok::Group(Delimiter::Brace, innerv)]);
            append_toks(&mut out, &t);
        },
        Some(_) => {
            let pl = vec![ident("payload")];
            assert(toks_view(pl@) =~= seq![SpecTok::Ident("payload"@)]);
            let g = vec![Tok::Group(Delimiter::Parenthesis, pl)];
            assert(toks_view(g@) =~= seq![SpecTok::Group(Delimiter::Parenthesis, seq![SpecTok::Ident("payload"@)])]);
            append_toks(&mut out, &g);
            append_toks(&mut out, &fat_arrow());
            let mut value = tag;
            let mid = vec![Tok::Punct(',', false), ident("value"), Tok::Punct(':', false)];
            assert(toks_view(mid@) =~= seq![SpecTok::Punct(',', false), SpecTok::Ident("value"@), SpecTok::Punct(':', false)]);
            append_toks(&mut value, &mid);
            append_toks(&mut value, &path3("co3", "Encode", "encode"));
            let mut args = vec![ident("payload"), Tok::Punct(',', false)];
            assert(toks_view(args@) =~= seq![SpecTok::Ident("payload"@), SpecTok::Punct(',', false)]);
            append_toks(&mut args, &store_slot(i));
            let ghost argsv = toks_view(args@);
            let call = vec![Tok::Group(Delimiter::Parenthesis, args)];
            assert(toks_view(call@) =~= seq![SpecTok::Group(Delimiter::Parenthesis, argsv)]);
            append_toks(&mut value, &call);
            let ghost valuev = toks_view(value@);
            let inner = vec![Tok::Ident(v.name.clone()), Tok::Punct(':', false), Tok::Ident(sname), Tok::Group(Delimiter::Brace, value)];
            let ghost innerv = seq![
                SpecTok::Ident(v.name@),
                SpecTok::Punct(':', false),
                SpecTok::Ident(spec_variant_struct_name(e@, v.name@)),
                SpecTok::Group(Delimiter::Brace, valuev),
            ];
            assert(toks_view(inner@) =~= innerv);
            let body = vec![Tok::Ident(cname), Tok::Group(Delimiter::Brace, inner)];
            let ghost bodyv = seq![SpecTok::Ident(spec_repr_c_name(e@)), SpecTok::Group(Delimiter::Brace, innerv)];
            assert(toks_view(body@) =~= bodyv);
            let t = vec![Tok::Group(Delimiter::Brace, body)];
            assert(toks_view(t@) =~= seq![SpecTok::Group(Delimiter::Brace, bodyv)]);
            append_toks(&mut out, &t);
        },
    }
    let k = vec![Tok::Punct(',', false)];
    assert(toks_view(k@) =~= seq![SpecTok::Punct(',', false)]);
    append_toks(&mut out, &k);
    assert(toks_view(out@) =~= spec_encode_arm(e@, i as nat, v@));
    out
}

fn decode_arm(i: usize, v: &DataVariant) -> (r: Vec<Tok>)
    ensures
        toks_view(r@) == spec_decode_arm(i as nat, v@),
{
    proof {
        reveal_strlit("Some");
        reveal_strlit("source");
        reveal_strlit("value");
        reveal_strlit("map");
        reveal_strlit("let");
        reveal_strlit("unsafe");
    }
    let mut out = vec![lit(i)];
    assert(toks_view(out@) =~= seq![SpecTok::Literal(spec_decimal(i as nat))]);
    append_toks(&mut out, &fat_arrow());
    match &v.field {
        None => {
            let sv = self_variant(&v.name);
            let ghost svv = toks_view(sv@);
            let t = vec![ident("Some"), Tok::Group(Delimiter::Parenthesis, sv)];
            assert(toks_view(t@) =~= seq![SpecTok::Ident("Some"@), SpecTok::Group(Delimiter::Parenthesis, svv)]);
            append_toks(&mut out, &t);
        },
        Some(_) => {
            let read = vec![ident("source"), Tok::Punct('.', false), Tok::Ident(v.name.clone()), Tok::Punct('.', false), ident("value")];
            let ghost readv = seq![
                SpecTok::Ident("source"@),
                SpecTok::Punct('.', false),
                SpecTok::Ident(v.name@),
                SpecTok::Punct('.', false),
                SpecTok::Ident("value"@),
            ];
            assert(toks_view(read@) =~= readv);
            let mut decode = path3("co3", "Decode", "decode");
            let mut args = vec![ident("value"), Tok::Punct(',', false)];
            assert(toks_view(args@) =~= seq![SpecTok::Ident("value"@), SpecTok::Punct(',', false)]);
            append_toks(&mut args, &store_slot(i));
            let ghost argsv = toks_view(args@);
            let sv = self_variant(&v.name);
            let ghost svv = toks_view(sv@);
            let t = vec![
                Tok::Group(Delimiter::Parenthesis, args),
                Tok::Punct('.', false),
                ident("map"),
                Tok::Group(Delimiter::Parenthesis, sv),
            ];
            assert(toks_view(t@) =~= seq![
                SpecTok::Group(Delimiter::Parenthesis, argsv),
                SpecTok::Punct('.', false),
                SpecTok::Ident("map"@),
                SpecTok::Group(Delimiter::Parenthesis, svv),
            ]);
            append_toks(&mut decode, &t);
            let ghost decodev = toks_view(decode@);
            let block = vec![
                ident("let"),
                ident("value"),
                Tok::Punct('=', false),
                ident("unsafe"),
                Tok::Group(Delimiter::Brace, read),
                Tok::Punct(';', false),
                ident("unsafe"),
                Tok::Group(Delimiter::Brace, decode),
            ];
            let ghost blockv = seq![
                SpecTok::Ident("let"@),
                SpecTok::Ident("value"@),
                SpecTok::Punct('=', false),
                SpecTok::Ident("unsafe"@),
                SpecTok::Group(Delimiter::Brace, readv),
                SpecTok::Punct(';', false),
                SpecTok::Ident("unsafe"@),
                SpecTok::Group(Delimiter::Brace, decodev),
            ];
            assert(toks_view(block@) =~= blockv);
            let g = vec![Tok::Group(Delimiter::Brace, block)];
            assert(toks_view(g@) =~= seq![SpecTok::Group(Delimiter::Brace, blockv)]);
            append_toks(&mut out, &g);
        },
    }
    let k = vec![Tok::Punct(',', false)];
    assert(toks_view(k@) =~= seq![SpecTok::Punct(',', false)]);
    append_toks(&mut out, &k);
    assert(toks_view(out@) =~= spec_decode_arm(i as nat, v@));
    out
}

fn encode_arms(e: &str, vs: &Vec<DataVariant>) -> (r: Vec<Tok>)
    ensures
        toks_view(r@) == spec_encode_arms(e@, variants_view(vs@), vs@.len() as int),
{
    let ghost vv = variants_view(vs@);
    let mut out: Vec<Tok> = Vec::new();
    let mut i: usize = 0;
    assert(toks_view(out@) =~= Seq::<SpecTok>::empty());
    while i < vs.len()
        invariant
            i <= vs@.len(),
            vv == variants_view(vs@),
            toks_view(out@) == spec_encode_arms(e@, vv, i as int),
        decreases vs@.len() - i,
    {
        append_toks(&mut out, &encode_arm(e, i, &vs[i]));
        i = i + 1;
    }
    out
}

fn decode_arms(vs: &Vec<DataVariant>) -> (r: Vec<Tok>)
    ensures
        toks_view(r@) == spec_decode_arms(variants_view(vs@), vs@.len() as int),
{
    let ghost vv = variants_view(vs@);
    let mut out: Vec<Tok> = Vec::new();
    let mut i: usize = 0;
    assert(toks_view(out@) =~= Seq::<SpecTok>::empty());
    while i < vs.len()
        invariant
            i <= vs@.len(),
            vv == variants_view(vs@),
            toks_view(out@) == spec_decode_arms(vv, i as int),
        decreases vs@.len() - i,
    {
        append_toks(&mut out, &decode_arm(i, &vs[i]));
        i = i + 1;
    }
    out
}

fn stores(vs: &Vec<DataVariant>) -> (r: (Vec<Vec<Tok>>, Vec<Vec<Tok>>))
    ensures
        lists_view(r.0@) == spec_rust_stores(variants_view(vs@)),
        lists_view(r.1@) == spec_ffi_stores(variants_view(vs@)),
{
    let ghost vv = variants_view(vs@);
    let mut a: Vec<Vec<Tok>> = Vec::new();
    let mut b: Vec<Vec<Tok>> = Vec::new();
    let mut i: usize = 0;
    while i < vs.len()
        invariant
            i <= vs@.len(),
            vv == variants_view(vs@),
            a@.len() == i,
            b@.len() == i,
            forall|j: int| 0 <= j < i ==> toks_view((#[trigger] a@[j])@) == spec_rust_store(vv[j]),
            forall|j: int| 0 <= j < i ==> toks_view((#[trigger] b@[j])@) == spec_ffi_store(vv[j]),
        decreases vs@.len() - i,
    {
        a.push(rust_store(&vs[i]));
        b.push(ffi_store(&vs[i]));
        i = i + 1;
    }
    assert(lists_view(a@) =~= spec_rust_stores(vv));
    assert(lists_view(b@) =~= spec_ffi_stores(vv));
    (a, b)
}

fn tag_read(repr: &str) -> (r: Vec<Tok>)
    ensures
        toks_view(r@) == spec_tag_read(repr@),
{
    proof {
        reveal_strlit("unsafe");
        reveal_strlit("source");
        reveal_strlit("cast");
    }
    let mut inner = vec![Tok::Punct('*', false)];
    assert(toks_view(inner@) =~= seq![SpecTok::Punct('*', false)]);
    append_toks(&mut inner, &path3("core", "ptr", "from_ref"));
    let arg = vec![Tok::Punct('&', false), ident("source")];
    let ghost argv = seq![SpecTok::Punct('&', false), SpecTok::Ident("source"@)];
    assert(toks_view(arg@) =~= argv);
    let e: Vec<Tok> = Vec::new();
    assert(toks_view(e@) =~= Seq::<SpecTok>::empty());
    let tail = vec![
        Tok::Group(Delimiter::Parenthesis, arg),
        Tok::Punct('.', false),
        ident("cast"),
        Tok::Punct(':', true),
        Tok::Punct(':', false),
        Tok::Punct('<', false),
        ident(repr),
        Tok::Punct('>', false),
        Tok::Group(Delimiter::Parenthesis, e),
    ];
    assert(toks_view(tail@) =~= seq![
        SpecTok::Group(Delimiter::Parenthesis, argv),
        SpecTok::Punct('.', false),
        SpecTok::Ident("cast"@),
        SpecTok::Punct(':', true),
        SpecTok::Punct(':', false),
        SpecTok::Punct('<', false),
        SpecTok::Ident(repr@),
        SpecTok::Punct('>', false),
        SpecTok::Group(Delimiter::Parenthesis, Seq::empty()),
    ]);
    append_toks(&mut inner, &tail);
    let ghost iv = toks_view(inner@);
    let r = vec![ident("unsafe"), Tok::Group(Delimiter::Brace, inner)];
    assert(toks_view(r@) =~= spec_tag_read(repr@));
    r
}

fn data_encode(
    e: &str,
    vs: &Vec<DataVariant>,
    ig: &Vec<Tok>,
    tg: &Vec<Tok>,
    preds: &Vec<Tok>,
    tys: &Vec<Vec<Tok>>,
    flags: &Vec<bool>,
) -> (r: Vec<Tok>)
    requires
        lists_view(tys@) == spec_field_types(variants_view(vs@)),
        flags@ == spec_field_flags(variants_view(vs@)),
    ensures
        toks_view(r@) == spec_data_encode(e@, variants_view(vs@), toks_view(ig@), toks_view(tg@), toks_view(preds@)),
{
    proof {
        reveal_strlit("where");
        reveal_strlit("type");
        reveal_strlit("Store");
        reveal_strlit("fn");
        reveal_strlit("encode");
        reveal_strlit("self");
        reveal_strlit("Self");
        reveal_strlit("match");
    }
    let (rs, fs) = stores(vs);
    let (rust, _ffi, init) = gen_store_types(vs.len(), rs, fs);
    let mut bounds = vec![ident("where")];
    assert(toks_view(bounds@) =~= seq![SpecTok::Ident("where"@)]);
    append_toks(&mut bounds, &trait_bounds(tys, flags, &path2("co3", "Encode")));
    append_toks(&mut bounds, preds);
    let mut body = vec![ident("type"), ident("Store"), Tok::Punct('=', false)];
    assert(toks_view(body@) =~= seq![SpecTok::Ident("type"@), SpecTok::Ident("Store"@), SpecTok::Punct('=', false)]);
    append_toks(&mut body, &rust);
    let t1 = vec![Tok::Punct(';', false), ident("fn"), ident("encode"), Tok::Punct('<', false)];
    assert(toks_view(t1@) =~= seq![
        SpecTok::Punct(';', false),
        SpecTok::Ident("fn"@),
        SpecTok::Ident("encode"@),
        SpecTok::Punct('<', false),
    ]);
    append_toks(&mut body, &t1);
    append_toks(&mut body, &lifetime("_išč"));
    let mut params = vec![ident("self"), Tok::Punct(',', false)];
    assert(toks_view(params@) =~= seq![SpecTok::Ident("self"@), SpecTok::Punct(',', false)]);
    append_toks(&mut params, &store_arg());
    let ghost pv = toks_view(params@);
    let t2 = vec![Tok::Punct('>', false), Tok::Group(Delimiter::Parenthesis, params)];
    assert(toks_view(t2@) =~= seq![SpecTok::Punct('>', false), SpecTok::Group(Delimiter::Parenthesis, pv)]);
    append_toks(&mut body, &t2);
    append_toks(&mut body, &arrow());
    append_toks(&mut body, &self_c_type());
    let t3 = vec![ident("where"), ident("Self"), Tok::Punct(':', false)];
    assert(toks_view(t3@) =~= seq![SpecTok::Ident("where"@), SpecTok::Ident("Self"@), SpecTok::Punct(':', false)]);
    append_toks(&mut body, &t3);
    append_toks(&mut body, &lifetime("_išč"));
    let mut inner = copy(&init);
    let arms = encode_arms(e, vs);
    let ghost av = toks_view(arms@);
    let m = vec![ident("match"), ident("self"), Tok::Group(Delimiter::Brace, arms)];
    assert(toks_view(m@) =~= seq![SpecTok::Ident("match"@), SpecTok::Ident("self"@), SpecTok::Group(Delimiter::Brace, av)]);
    append_toks(&mut inner, &m);
    let ghost innerv = toks_view(inner@);
    let g = vec![Tok::Group(Delimiter::Brace, inner)];
    assert(toks_view(g@) =~= seq![SpecTok::Group(Delimiter::Brace, innerv)]);
    append_toks(&mut body, &g);
    let r = impl_block(ig, &path2("co3", "Encode"), e, tg, &bounds, body);
    r
}

fn data_decode(
    e: &str,
    vs: &Vec<DataVariant>,
    repr: &str,
    tg: &Vec<Tok>,
    params: &Vec<Tok>,
    preds: &Vec<Tok>,
    tys: &Vec<Vec<Tok>>,
    flags: &Vec<bool>,
) -> (r: Vec<Tok>)
    requires
        lists_view(tys@) == spec_field_types(variants_view(vs@)),
        flags@ == spec_field_flags(variants_view(vs@)),
    ensures
        toks_view(r@) == spec_data_decode(e@, variants_view(vs@), repr@, toks_view(tg@), toks_view(params@), toks_view(preds@)),
{
    proof {
        reveal_strlit("where");
        reveal_strlit("type");
        reveal_strlit("Store");
        reveal_strlit("unsafe");
        reveal_strlit("fn");
        reveal_strlit("decode");
        reveal_strlit("source");
        reveal_strlit("_");
        reveal_strlit("None");
        reveal_strlit("Option");
        reveal_strlit("Self");
        reveal_strlit("match");
    }
    let (rs, fs) = stores(vs);
    let (_rust, ffi, init) = gen_store_types(vs.len(), rs, fs);
    let cname = repr_c_name(e);
    // impl<'_dšč, params>
    let mut ig = vec![Tok::Punct('<', false)];
    assert(toks_view(ig@) =~= seq![SpecTok::Punct('<', false)]);
    append_toks(&mut ig, &lifetime("_dšč"));
    let c1 = vec![Tok::Punct(',', false)];
    assert(toks_view(c1@) =~= seq![SpecTok::Punct(',', false)]);
    append_toks(&mut ig, &c1);
    append_toks(&mut ig, params);
    let g1 = vec![Tok::Punct('>', false)];
    assert(toks_view(g1@) =~= seq![SpecTok::Punct('>', false)]);
    append_toks(&mut ig, &g1);
    // where C<..>: '_dšč, bounds preds
    let mut bounds = vec![ident("where"), Tok::Ident(cname)];
    assert(toks_view(bounds@) =~= seq![SpecTok::Ident("where"@), SpecTok::Ident(spec_repr_c_name(e@))]);
    append_toks(&mut bounds, tg);
    let c2 = vec![Tok::Punct(':', false)];
    assert(toks_view(c2@) =~= seq![SpecTok::Punct(':', false)]);
    append_toks(&mut bounds, &c2);
    append_toks(&mut bounds, &lifetime("_dšč"));
    append_toks(&mut bounds, &c1);
    append_toks(&mut bounds, &trait_bounds(tys, flags, &decode_path()));
    append_toks(&mut bounds, preds);
    // (source: <Self as co3::ExternC>::CType, store: &'_išč mut Self::Store)
    let mut plist = vec![ident("source"), Tok::Punct(':', false)];
    assert(toks_view(plist@) =~= seq![SpecTok::Ident("source"@), SpecTok::Punct(':', false)]);
    append_toks(&mut plist, &self_c_type());
    append_toks(&mut plist, &c1);
    append_toks(&mut plist, &store_arg());
    let ghost plv = toks_view(plist@);
    // arms
    let mut arms = decode_arms(vs);
    let w = vec![ident("_")];
    assert(toks_view(w@) =~= seq![SpecTok::Ident("_"@)]);
    append_toks(&mut arms, &w);
    append_toks(&mut arms, &fat_arrow());
    let n = vec![ident("None")];
    assert(toks_view(n@) =~= seq![SpecTok::Ident("None"@)]);
    append_toks(&mut arms, &n);
    let ghost av = toks_view(arms@);
    // body
    let mut body = vec![ident("type"), ident("Store"), Tok::Punct('=', false)];
    assert(toks_view(body@) =~= seq![SpecTok::Ident("type"@), SpecTok::Ident("Store"@), SpecTok::Punct('=', false)]);
    append_toks(&mut body, &ffi);
    let t1 = vec![Tok::Punct(';', false), ident("unsafe"), ident("fn"), ident("decode"), Tok::Punct('<', false)];
    assert(toks_view(t1@) =~= seq![
        SpecTok::Punct(';', false),
        SpecTok::Ident("unsafe"@),
        SpecTok::Ident("fn"@),
        SpecTok::Ident("decode"@),
        SpecTok::Punct('<', false),
    ]);
    append_toks(&mut body, &t1);
    append_toks(&mut body, &lifetime("_išč"));
    append_toks(&mut body, &c2);
    append_toks(&mut body, &lifetime("_dšč"));
    let t2 = vec![Tok::Punct('>', false), Tok::Group(Delimiter::Parenthesis, plist)];
    assert(toks_view(t2@) =~= seq![SpecTok::Punct('>', false), SpecTok::Group(Delimiter::Parenthesis, plv)]);
    append_toks(&mut body, &t2);
    append_toks(&mut body, &arrow());
    let mut inner = copy(&init);
    let mk = vec![ident("match")];
    assert(toks_view(mk@) =~= seq![SpecTok::Ident("match"@)]);
    append_toks(&mut inner, &mk);
    append_toks(&mut inner, &tag_read(repr));
    let ag = vec![Tok::Group(Delimiter::Brace, arms)];
    assert(toks_view(ag@) =~= seq![SpecTok::Group(Delimiter::Brace, av)]);
    append_toks(&mut inner, &ag);
    let ghost innerv = toks_view(inner@);
    let t3 = vec![ident("Option"), Tok::Punct('<', false), ident("Self"), Tok::Punct('>', false), Tok::Group(Delimiter::Brace, inner)];
    assert(toks_view(t3@) =~= seq![
        SpecTok::Ident("Option"@),
        SpecTok::Punct('<', false),
        SpecTok::Ident("Self"@),
        SpecTok::Punct('>', false),
        SpecTok::Group(Delimiter::Brace, innerv),
    ]);
    append_toks(&mut body, &t3);
    impl_block(&ig, &decode_path(), e, tg, &bounds, body)
}

/// What an enum with data and without a `#[repr]` derives (see
/// `spec_no_repr_data_enum`), from its name, its variants, the parts of its
/// generics as `split_for_impl` gives them, its parameter list, and whether
/// it is local.
pub fn derive_no_repr_data_enum(
    e: &str,
    vs: &Vec<DataVariant>,
    impl_generics: &Vec<Tok>,
    ty_generics: &Vec<Tok>,
    where_clause: &Vec<Tok>,
    params: &Vec<Tok>,
    predicates: &Vec<Tok>,
    local: bool,
) -> (r: Vec<Tok>)
    ensures
        toks_view(r@) == spec_no_repr_data_enum(
            e@,
            variants_view(vs@),
            toks_view(impl_generics@),
            toks_view(ty_generics@),
            toks_view(where_clause@),
            toks_view(params@),
            toks_view(predicates@),
            local,
        ),
{
    let ghost vv = variants_view(vs@);
    let repr = infer_repr(vs.len());
    let rname = repr.name();
    let (tys, flags) = field_types_of(vs);
    let mut out = gen_data_enum(e, vs, rname, impl_generics, ty_generics, params, predicates);
    let cname = repr_c_name(e);
    append_toks(&mut out, &gen_ir_impl(e, cname.as_str(), &tys, &flags, impl_generics, ty_generics, where_clause, predicates));
    let mut fieldless = true;
    let mut i: usize = 0;
    while i < vs.len()
        invariant
            i <= vs@.len(),
            vv == variants_view(vs@),
            fieldless == (forall|j: int| 0 <= j < i ==> (#[trigger] vv[j]).field is None),
        decreases vs@.len() - i,
    {
        if vs[i].field.is_some() {
            fieldless = false;
        }
        assert(vv[i as int] == vs@[i as int]@);
        i = i + 1;
    }
    assert(fieldless == all_fieldless(vv));
    append_toks(
        &mut out,
        &gen_enum_niche_ir(repr, e, impl_generics, ty_generics, where_clause, predicates, vs.len(), fieldless),
    );
    append_toks(&mut out, &data_encode(e, vs, impl_generics, ty_generics, predicates, &tys, &flags));
    append_toks(&mut out, &data_decode(e, vs, rname, ty_generics, params, predicates, &tys, &flags));
    if !local {
        let mut unparameterized = true;
        let mut k: usize = 0;
        while k < flags.len()
            invariant
                k <= flags@.len(),
                unparameterized == (forall|j: int| 0 <= j < k ==> !#[trigger] flags@[j]),
            decreases flags@.len() - k,
        {
            if flags[k] {
                unparameterized = false;
            }
            k = k + 1;
        }
        assert(unparameterized == none_parameterized(flags@));
        append_toks(&mut out, &gen_out_ptr_impls(e, impl_generics, ty_generics, predicates, unparameterized));
    } else {
        let ghost o = toks_view(out@);
        assert(o + Seq::<SpecTok>::empty() =~= o);
    }
    out
}


/// The stores of a variant with one field of type `t`: on the Rust side the
/// type's `co3::Encode` store, on the foreign side its `co3::Decode<'_dšč>`
/// store; a variant without data has `()` on both.
pub proof fn lemma_data_variant_stores(t: Seq<SpecTok>, v: SpecDataVariant)
    ensures
        v.field == Some(t) ==> spec_rust_store(v) == seq![SpecTok::Punct('<', false)] + t + seq![
            SpecTok::Ident("as"@),
            SpecTok::Ident("co3"@),
            SpecTok::Punct(':', true),
            SpecTok::Punct(':', false),
            SpecTok::Ident("Encode"@),
            SpecTok::Punct('>', false),
            SpecTok::Punct(':', true),
            SpecTok::Punct(':', false),
            SpecTok::Ident("Store"@),
        ],
        v.field == Some(t) ==> spec_ffi_store(v) == seq![SpecTok::Punct('<', false)] + t + seq![
            SpecTok::Ident("as"@),
            SpecTok::Ident("co3"@),
            SpecTok::Punct(':', true),
            SpecTok::Punct(':', false),
            SpecTok::Ident("Decode"@),
            SpecTok::Punct('<', false),
            SpecTok::Punct('\'', true),
            SpecTok::Ident("_dšč"@),
            SpecTok::Punct('>', false),
            SpecTok::Punct('>', false),
            SpecTok::Punct(':', true),
            SpecTok::Punct(':', false),
            SpecTok::Ident("Store"@),
        ],
        v.field is None ==> spec_rust_store(v) == seq![SpecTok::Group(Delimiter::Parenthesis, Seq::<SpecTok>::empty())]
            && spec_ffi_store(v) == seq![SpecTok::Group(Delimiter::Parenthesis, Seq::<SpecTok>::empty())],
{
    if v.field == Some(t) {
        assert(spec_rust_store(v) =~= seq![SpecTok::Punct('<', false)] + t + seq![
            SpecTok::Ident("as"@),
            SpecTok::Ident("co3"@),
            SpecTok::Punct(':', true),
            SpecTok::Punct(':', false),
            SpecTok::Ident("Encode"@),
            SpecTok::Punct('>', false),
            SpecTok::Punct(':', true),
            SpecTok::Punct(':', false),
            SpecTok::Ident("Store"@),
        ]);
        assert(spec_ffi_store(v) =~= seq![SpecTok::Punct('<', false)] + t + seq![
            SpecTok::Ident("as"@),
            SpecTok::Ident("co3"@),
            SpecTok::Punct(':', true),
            SpecTok::Punct(':', false),
            SpecTok::Ident("Decode"@),
            SpecTok::Punct('<', false),
            SpecTok::Punct('\'', true),
            SpecTok::Ident("_dšč"@),
            SpecTok::Punct('>', false),
            SpecTok::Punct('>', false),
            SpecTok::Punct(':', true),
            SpecTok::Punct(':', false),
            SpecTok::Ident("Store"@),
        ]);
    }
}

} // verus!
