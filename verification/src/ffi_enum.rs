//! What an enum with data and without a `#[repr]` derives for the foreign
//! boundary: a `ReprC` struct of a `c_uint` tag and a payload union, its
//! representation and niche, encoding and decoding variant by variant, and,
//! where it is not local, its out-pointer impls. Only variants without
//! fields or with one unnamed field are supported; any other is reported
//! and treated as one without fields.
use vstd::prelude::*;
use crate::codegen::{
    gen_store_types, ident, impl_block, lists_view, out_ptr_body1, out_ptr_body2, path2, path3,
    spec_impl_block, spec_out_ptr_body1, spec_out_ptr_body2, spec_path2, spec_path3, spec_store_types,
};
use crate::enum_codegen::{spec_arrow, spec_lifetime, spec_self_c_type};
use crate::layout::{c_type_tokens, spec_c_type_tokens};
use crate::preprocess::append_toks;
use crate::repr_c::{spec_attr, spec_str_lit};
use crate::struct_codegen::{
    attr_of, comma_joined, extended_where, lifetime, lit, paren_ident, reprc_name, result_read_body,
    self_c_type, slot, spec_comma_joined, spec_extended_where, spec_reprc_name, spec_result_read_body,
    spec_slot, spec_type_item, spec_without_niche_bound, store_param_after, str_lit_of, type_item,
    without_niche_bound,
};
use crate::text::{decimal, spec_decimal, string_of};
use crate::tokens::{Delimiter, SpecTok, Tok, toks_view};

verus! {

/// The shape of a variant: no fields, one unnamed field (its type's
/// tokens), or another shape, which is not supported.
#[derive(Debug, PartialEq, Eq)]
pub enum VariantShape {
    Unit,
    Single(Vec<Tok>),
    Other,
}

/// A variant: its name and shape.
#[derive(Debug, PartialEq, Eq)]
pub struct FfiVariant {
    pub name: String,
    pub shape: VariantShape,
}

/// The value of a variant: its name, and its field's type where it has one
/// unnamed field (`None` for any other shape).
pub struct SpecFfiVariant {
    pub name: Seq<char>,
    pub field: Option<Seq<SpecTok>>,
    pub supported: bool,
}

impl View for FfiVariant {
    type V = SpecFfiVariant;

    open spec fn view(&self) -> SpecFfiVariant {
        SpecFfiVariant {
            name: self.name@,
            field: match self.shape {
                VariantShape::Single(t) => Some(toks_view(t@)),
                _ => None,
            },
            supported: !(self.shape is Other),
        }
    }
}

/// The values of a sequence of variants.
pub open spec fn ffi_variants_view(s: Seq<FfiVariant>) -> Seq<SpecFfiVariant> {
    Seq::new(s.len(), |i: int| s[i]@)
}

/// The positions of the unsupported variants among the first `n`, in order.
pub open spec fn spec_unsupported(vs: Seq<SpecFfiVariant>, n: int) -> Seq<usize>
    decreases n,
{
    if n <= 0 || n > vs.len() {
        Seq::empty()
    } else {
        spec_unsupported(vs, n - 1) + if vs[n - 1].supported {
            Seq::empty()
        } else {
            seq![(n - 1) as usize]
        }
    }
}

/// The name of the payload union of enum `e`: `__co3__{e}Payload`.
pub open spec fn spec_payload_name(e: Seq<char>) -> Seq<char> {
    "__co3__"@ + e + "Payload"@
}

/// `impl<..> Copy for T<..> where .. {}` and `unsafe impl<..> co3::ReprC for T<..> where .. {}`.
pub open spec fn spec_copy_reprc(t: Seq<char>, ig: Seq<SpecTok>, tg: Seq<SpecTok>, wc: Seq<SpecTok>) -> Seq<SpecTok> {
    spec_impl_block(ig, seq![SpecTok::Ident("Copy"@)], t, tg, wc, Seq::empty()) + seq![SpecTok::Ident("unsafe"@)]
        + spec_impl_block(ig, spec_path2("co3"@, "ReprC"@), t, tg, wc, Seq::empty())
}

/// The payload field type of a variant: `()`, or its field's foreign type.
pub open spec fn spec_payload_ty(v: SpecFfiVariant) -> Seq<SpecTok> {
    match v.field {
        Some(t) => spec_c_type_tokens(t),
        None => seq![SpecTok::Group(Delimiter::Parenthesis, Seq::empty())],
    }
}

/// The payload union: a field per variant, named after it, of its payload
/// field type.
pub open spec fn spec_payload(e: Seq<char>, vs: Seq<SpecFfiVariant>, ig: Seq<SpecTok>, tg: Seq<SpecTok>, wc: Seq<SpecTok>) -> Seq<SpecTok> {
    let p = spec_payload_name(e);
    let fields = spec_comma_joined(
        Seq::new(vs.len(), |i: int| seq![SpecTok::Ident(vs[i].name), SpecTok::Punct(':', false)] + spec_payload_ty(vs[i])),
    );
    spec_attr(seq![SpecTok::Ident("repr"@), SpecTok::Group(Delimiter::Parenthesis, seq![SpecTok::Ident("C"@)])])
        + spec_attr(seq![SpecTok::Ident("doc"@), SpecTok::Punct('=', false), spec_str_lit(" Payload of [`"@ + spec_reprc_name(e) + "`]"@)])
        + spec_attr(seq![SpecTok::Ident("derive"@), SpecTok::Group(Delimiter::Parenthesis, seq![SpecTok::Ident("Clone"@)])])
        + spec_attr(seq![SpecTok::Ident("expect"@), SpecTok::Group(Delimiter::Parenthesis, seq![SpecTok::Ident("non_snake_case"@)])])
        + seq![SpecTok::Ident("union"@), SpecTok::Ident(p)] + ig + wc + seq![SpecTok::Group(Delimiter::Brace, fields)]
        + spec_copy_reprc(p, ig, tg, wc)
}

/// The `ReprC` equivalent of the enum: the payload union, then a struct of
/// a `core::ffi::c_uint` tag and the payload, with `Copy`, `co3::ReprC` and
/// `Robust`.
pub open spec fn spec_reprc_enum(
    e: Seq<char>,
    vs: Seq<SpecFfiVariant>,
    ig: Seq<SpecTok>,
    tg: Seq<SpecTok>,
    wc: Seq<SpecTok>,
    params: Seq<SpecTok>,
    preds: Seq<SpecTok>,
) -> Seq<SpecTok> {
    let c = spec_reprc_name(e);
    let fields = seq![SpecTok::Ident("tag"@), SpecTok::Punct(':', false)] + spec_path3("core"@, "ffi"@, "c_uint"@) + seq![
        SpecTok::Punct(',', false),
        SpecTok::Ident("payload"@),
        SpecTok::Punct(':', false),
        SpecTok::Ident(spec_payload_name(e)),
    ] + tg + seq![SpecTok::Punct(',', false)];
    spec_payload(e, vs, ig, tg, wc) + spec_attr(
        seq![SpecTok::Ident("repr"@), SpecTok::Group(Delimiter::Parenthesis, seq![SpecTok::Ident("C"@)])],
    ) + spec_attr(seq![SpecTok::Ident("doc"@), SpecTok::Punct('=', false), spec_str_lit(" [`ReprC`] equivalent of [`"@ + e + "`]"@)])
        + spec_attr(seq![SpecTok::Ident("derive"@), SpecTok::Group(Delimiter::Parenthesis, seq![SpecTok::Ident("Clone"@)])])
        + seq![SpecTok::Ident("struct"@), SpecTok::Ident(c)] + ig + wc + seq![SpecTok::Group(Delimiter::Brace, fields)]
        + spec_copy_reprc(c, ig, tg, wc) + spec_path2("co3"@, "mineral"@) + seq![
        SpecTok::Punct('!', false),
        SpecTok::Group(
            Delimiter::Brace,
            seq![
                SpecTok::Ident("impl"@),
                SpecTok::Group(Delimiter::Parenthesis, params),
                SpecTok::Ident("Robust"@),
                SpecTok::Ident("for"@),
                SpecTok::Ident(c),
                SpecTok::Ident("where"@),
                SpecTok::Group(Delimiter::Parenthesis, preds),
                SpecTok::Group(Delimiter::Brace, Seq::empty()),
            ],
        ),
    ]
}

/// The field types of the variants with one unnamed field, in order.
pub open spec fn spec_single_types(vs: Seq<SpecFfiVariant>, n: int) -> Seq<Seq<SpecTok>>
    decreases n,
{
    if n <= 0 || n > vs.len() {
        Seq::empty()
    } else {
        spec_single_types(vs, n - 1) + match vs[n - 1].field {
            Some(t) => seq![t],
            None => Seq::empty(),
        }
    }
}

/// The niche: where the tag has values left (fewer variants than
/// `u32::MAX`), the first unused tag with a zeroed payload; otherwise also
/// a family without a niche where every field type has none.
pub open spec fn spec_ffi_enum_niche(
    e: Seq<char>,
    vs: Seq<SpecFfiVariant>,
    ig: Seq<SpecTok>,
    tg: Seq<SpecTok>,
    wc: Seq<SpecTok>,
    preds: Seq<SpecTok>,
) -> Seq<SpecTok> {
    let c = spec_reprc_name(e);
    let singles = spec_single_types(vs, vs.len() as int);
    let without = if vs.len() < 0xffff_ffff {
        Seq::empty()
    } else {
        spec_impl_block(
            ig,
            spec_path3("co3"@, "niche"@, "Ir"@),
            e,
            tg,
            spec_extended_where(
                preds,
                Seq::new(singles.len(), |i: int| singles[i] + seq![SpecTok::Punct(':', false)] + spec_without_niche_bound()),
            ),
            spec_type_item(spec_path3("co3"@, "niche"@, "WithoutNiche"@)),
        )
    };
    let value = seq![
        SpecTok::Ident(c),
        SpecTok::Group(
            Delimiter::Brace,
            seq![
                SpecTok::Ident("tag"@),
                SpecTok::Punct(':', false),
                SpecTok::Literal(spec_decimal(vs.len())),
                SpecTok::Punct(',', false),
                SpecTok::Ident("payload"@),
                SpecTok::Punct(':', false),
                SpecTok::Ident("unsafe"@),
                SpecTok::Group(
                    Delimiter::Brace,
                    spec_path3("core"@, "mem"@, "zeroed"@) + seq![SpecTok::Group(Delimiter::Parenthesis, Seq::empty())],
                ),
            ],
        ),
    ];
    without + spec_impl_block(
        ig,
        spec_path3("co3"@, "niche"@, "Ir"@),
        e,
        tg,
        wc,
        spec_type_item(spec_path3("co3"@, "niche"@, "WithCustomNiche"@)),
    ) + spec_impl_block(
        ig,
        spec_path3("co3"@, "niche"@, "Niche"@),
        e,
        tg,
        wc,
        seq![SpecTok::Ident("const"@), SpecTok::Ident("NICHE_VALUE"@), SpecTok::Punct(':', false), SpecTok::Ident(c), SpecTok::Punct('=', false)]
            + value + seq![SpecTok::Punct(';', false)],
    )
}

/// The Rust-side store of a variant.
pub open spec fn spec_variant_rust_store(v: SpecFfiVariant) -> Seq<SpecTok> {
    match v.field {
        None => seq![SpecTok::Group(Delimiter::Parenthesis, Seq::empty())],
        Some(t) => seq![SpecTok::Punct('<', false)] + t + seq![SpecTok::Ident("as"@)] + spec_path2("co3"@, "Encode"@)
            + seq![SpecTok::Punct('>', false), SpecTok::Punct(':', true), SpecTok::Punct(':', false), SpecTok::Ident("Store"@)],
    }
}

/// The foreign-side store of a variant.
pub open spec fn spec_variant_ffi_store(v: SpecFfiVariant) -> Seq<SpecTok> {
    match v.field {
        None => seq![SpecTok::Group(Delimiter::Parenthesis, Seq::empty())],
        Some(t) => seq![SpecTok::Punct('<', false)] + t + seq![SpecTok::Ident("as"@)] + spec_path2("co3"@, "Decode"@)
            + seq![SpecTok::Punct('<', false)] + spec_lifetime("_dšč"@) + seq![
            SpecTok::Punct('>', false),
            SpecTok::Punct('>', false),
            SpecTok::Punct(':', true),
            SpecTok::Punct(':', false),
            SpecTok::Ident("Store"@),
        ],
    }
}

/// The stores of the variants.
pub open spec fn spec_variant_stores(vs: Seq<SpecFfiVariant>) -> (Seq<Seq<SpecTok>>, Seq<Seq<SpecTok>>) {
    (
        Seq::new(vs.len(), |i: int| spec_variant_rust_store(vs[i])),
        Seq::new(vs.len(), |i: int| spec_variant_ffi_store(vs[i])),
    )
}

/// The statement that prepares the store in `encode` beyond twelve
/// variants, written `let store = store.insert(Default:default());`.
pub open spec fn spec_encode_store_init(n: nat) -> Seq<SpecTok> {
    if n > 12 {
        seq![
            SpecTok::Ident("let"@),
            SpecTok::Ident("store"@),
            SpecTok::Punct('=', false),
            SpecTok::Ident("store"@),
            SpecTok::Punct('.', false),
            SpecTok::Ident("insert"@),
            SpecTok::Group(
                Delimiter::Parenthesis,
                seq![
                    SpecTok::Ident("Default"@),
                    SpecTok::Punct(':', false),
                    SpecTok::Ident("default"@),
                    SpecTok::Group(Delimiter::Parenthesis, Seq::empty()),
                ],
            ),
            SpecTok::Punct(';', false),
        ]
    } else {
        Seq::empty()
    }
}

/// `=>`
pub open spec fn spec_fat() -> Seq<SpecTok> {
    seq![SpecTok::Punct('=', true), SpecTok::Punct('>', false)]
}

/// `Self::V`
pub open spec fn spec_self_v(v: Seq<char>) -> Seq<SpecTok> {
    seq![SpecTok::Ident("Self"@), SpecTok::Punct(':', true), SpecTok::Punct(':', false), SpecTok::Ident(v)]
}

/// The arm that encodes variant `i` (followed by a comma): the tag `i`, and
/// the payload with the variant's field encoded into slot `i` (or `()`).
pub open spec fn spec_ffi_encode_arm(e: Seq<char>, i: nat, v: SpecFfiVariant) -> Seq<SpecTok> {
    let c = spec_reprc_name(e);
    let p = spec_payload_name(e);
    let arm = match v.field {
        None => spec_self_v(v.name) + spec_fat() + seq![
            SpecTok::Ident(c),
            SpecTok::Group(
                Delimiter::Brace,
                seq![
                    SpecTok::Ident("tag"@),
                    SpecTok::Punct(':', false),
                    SpecTok::Literal(spec_decimal(i)),
                    SpecTok::Punct(',', false),
                    SpecTok::Ident("payload"@),
                    SpecTok::Punct(':', false),
                    SpecTok::Ident(p),
                    SpecTok::Group(
                        Delimiter::Brace,
                        seq![SpecTok::Ident(v.name), SpecTok::Punct(':', false), SpecTok::Group(Delimiter::Parenthesis, Seq::empty())],
                    ),
                ],
            ),
        ],
        Some(_) => spec_self_v(v.name) + seq![SpecTok::Group(Delimiter::Parenthesis, seq![SpecTok::Ident("payload"@)])]
            + spec_fat() + seq![
            SpecTok::Group(
                Delimiter::Brace,
                seq![
                    SpecTok::Ident("let"@),
                    SpecTok::Ident("payload"@),
                    SpecTok::Punct('=', false),
                    SpecTok::Ident(p),
                    SpecTok::Group(
                        Delimiter::Brace,
                        seq![SpecTok::Ident(v.name), SpecTok::Punct(':', false)] + spec_path3("co3"@, "Encode"@, "encode"@)
                            + seq![
                            SpecTok::Group(
                                Delimiter::Parenthesis,
                                seq![SpecTok::Ident("payload"@), SpecTok::Punct(',', false)] + spec_slot(i),
                            ),
                        ],
                    ),
                    SpecTok::Punct(';', false),
                    SpecTok::Ident(c),
                    SpecTok::Group(
                        Delimiter::Brace,
                        seq![
                            SpecTok::Ident("tag"@),
                            SpecTok::Punct(':', false),
                            SpecTok::Literal(spec_decimal(i)),
                            SpecTok::Punct(',', false),
                            SpecTok::Ident("payload"@),
                        ],
                    ),
                ],
            ),
        ],
    };
    arm + seq![SpecTok::Punct(',', false)]
}

/// The arm that decodes tag `i` (followed by a comma).
pub open spec fn spec_ffi_decode_arm(i: nat, v: SpecFfiVariant) -> Seq<SpecTok> {
    let head = seq![SpecTok::Literal(spec_decimal(i))] + spec_fat();
    let arm = match v.field {
        None => head + seq![SpecTok::Ident("Ok"@), SpecTok::Group(Delimiter::Parenthesis, spec_self_v(v.name))],
        Some(_) => head + seq![
            SpecTok::Group(
                Delimiter::Brace,
                seq![
                    SpecTok::Ident("let"@),
                    SpecTok::Ident("payload"@),
                    SpecTok::Punct('=', false),
                    SpecTok::Ident("source"@),
                    SpecTok::Punct('.', false),
                    SpecTok::Ident("payload"@),
                    SpecTok::Punct('.', false),
                    SpecTok::Ident(v.name),
                    SpecTok::Punct(';', false),
                ] + spec_path3("co3"@, "Decode"@, "decode"@) + seq![
                    SpecTok::Group(
                        Delimiter::Parenthesis,
                        seq![SpecTok::Ident("payload"@), SpecTok::Punct(',', false)] + spec_slot(i),
                    ),
                    SpecTok::Punct('.', false),
                    SpecTok::Ident("map"@),
                    SpecTok::Group(Delimiter::Parenthesis, spec_self_v(v.name)),
                ],
            ),
        ],
    };
    arm + seq![SpecTok::Punct(',', false)]
}

/// The encode arms of the first `n` variants.
pub open spec fn spec_ffi_encode_arms(e: Seq<char>, vs: Seq<SpecFfiVariant>, n: int) -> Seq<SpecTok>
    decreases n,
{
    if n <= 0 || n > vs.len() {
        Seq::empty()
    } else {
        spec_ffi_encode_arms(e, vs, n - 1) + spec_ffi_encode_arm(e, (n - 1) as nat, vs[n - 1])
    }
}

/// The decode arms of the first `n` variants.
pub open spec fn spec_ffi_decode_arms(vs: Seq<SpecFfiVariant>, n: int) -> Seq<SpecTok>
    decreases n,
{
    if n <= 0 || n > vs.len() {
        Seq::empty()
    } else {
        spec_ffi_decode_arms(vs, n - 1) + spec_ffi_decode_arm((n - 1) as nat, vs[n - 1])
    }
}

/// `store: &'_išč mut Self::Store`
pub open spec fn spec_store_param() -> Seq<SpecTok> {
    seq![SpecTok::Ident("store"@), SpecTok::Punct(':', false), SpecTok::Punct('&', false)] + spec_lifetime("_išč"@)
        + seq![
        SpecTok::Ident("mut"@),
        SpecTok::Ident("Self"@),
        SpecTok::Punct(':', true),
        SpecTok::Punct(':', false),
        SpecTok::Ident("Store"@),
    ]
}

/// The body of the `Encode` impl.
pub open spec fn spec_ffi_encode_body(e: Seq<char>, vs: Seq<SpecFfiVariant>) -> Seq<SpecTok> {
    let (rs, fs) = spec_variant_stores(vs);
    let rust_store = spec_store_types(vs.len(), rs, fs).0;
    seq![SpecTok::Ident("type"@), SpecTok::Ident("Store"@), SpecTok::Punct('=', false)] + rust_store + seq![
        SpecTok::Punct(';', false),
        SpecTok::Ident("fn"@),
        SpecTok::Ident("encode"@),
        SpecTok::Punct('<', false),
    ] + spec_lifetime("_išč"@) + seq![
        SpecTok::Punct('>', false),
        SpecTok::Group(Delimiter::Parenthesis, seq![SpecTok::Ident("self"@), SpecTok::Punct(',', false)] + spec_store_param()),
    ] + spec_arrow() + spec_self_c_type() + seq![SpecTok::Ident("where"@), SpecTok::Ident("Self"@), SpecTok::Punct(':', false)]
        + spec_lifetime("_išč"@) + seq![
        SpecTok::Group(
            Delimiter::Brace,
            spec_encode_store_init(vs.len()) + seq![
                SpecTok::Ident("match"@),
                SpecTok::Ident("self"@),
                SpecTok::Group(Delimiter::Brace, spec_ffi_encode_arms(e, vs, vs.len() as int)),
            ],
        ),
    ]
}

/// The body of the `Decode` impl; an unknown tag is a trap representation.
pub open spec fn spec_ffi_decode_body(vs: Seq<SpecFfiVariant>) -> Seq<SpecTok> {
    let (rs, fs) = spec_variant_stores(vs);
    let st = spec_store_types(vs.len(), rs, fs);
    let arms = spec_ffi_decode_arms(vs, vs.len() as int) + seq![SpecTok::Ident("_"@)] + spec_fat() + seq![
        SpecTok::Ident("Err"@),
        SpecTok::Group(Delimiter::Parenthesis, spec_path3("co3"@, "FfiReturn"@, "TrapRepresentation"@)),
    ];
    seq![SpecTok::Ident("type"@), SpecTok::Ident("Store"@), SpecTok::Punct('=', false)] + st.1 + seq![
        SpecTok::Punct(';', false),
        SpecTok::Ident("unsafe"@),
        SpecTok::Ident("fn"@),
        SpecTok::Ident("decode"@),
        SpecTok::Punct('<', false),
    ] + spec_lifetime("_išč"@) + seq![SpecTok::Punct(':', false)] + spec_lifetime("_dšč"@) + seq![
        SpecTok::Punct('>', false),
        SpecTok::Group(
            Delimiter::Parenthesis,
            seq![SpecTok::Ident("source"@), SpecTok::Punct(':', false)] + spec_self_c_type() + seq![SpecTok::Punct(',', false)]
                + spec_store_param(),
        ),
    ] + spec_arrow() + spec_path2("co3"@, "Result"@) + seq![
        SpecTok::Punct('<', false),
        SpecTok::Ident("Self"@),
        SpecTok::Punct('>', false),
        SpecTok::Group(
            Delimiter::Brace,
            st.2 + seq![
                SpecTok::Ident("match"@),
                SpecTok::Ident("source"@),
                SpecTok::Punct('.', false),
                SpecTok::Ident("tag"@),
                SpecTok::Group(Delimiter::Brace, arms),
            ],
        ),
    ]
}

/// `impl<'_dšč, params> co3::Decode<'_dšč>`'s generics and trait path.
pub open spec fn spec_decode_head(params: Seq<SpecTok>) -> (Seq<SpecTok>, Seq<SpecTok>) {
    (
        seq![SpecTok::Punct('<', false)] + spec_lifetime("_dšč"@) + seq![SpecTok::Punct(',', false)] + params + seq![
            SpecTok::Punct('>', false),
        ],
        spec_path2("co3"@, "Decode"@) + seq![SpecTok::Punct('<', false)] + spec_lifetime("_dšč"@) + seq![SpecTok::Punct('>', false)],
    )
}

/// The out-pointer impls, under `NonLocal` bounds on the variants' field
/// types for any lifetime.
pub open spec fn spec_ffi_out_ptr(e: Seq<char>, vs: Seq<SpecFfiVariant>, ig: Seq<SpecTok>, tg: Seq<SpecTok>, preds: Seq<SpecTok>) -> Seq<SpecTok> {
    let singles = spec_single_types(vs, vs.len() as int);
    let nlw = spec_extended_where(
        preds,
        Seq::new(
            singles.len(),
            |i: int|
                seq![SpecTok::Ident("for"@), SpecTok::Punct('<', false)] + spec_lifetime("_dummy"@) + seq![SpecTok::Punct('>', false)]
                    + singles[i] + seq![SpecTok::Punct(':', false)] + spec_path3("co3"@, "out_ptr"@, "NonLocal"@),
        ),
    );
    seq![SpecTok::Ident("unsafe"@)] + spec_impl_block(ig, spec_path3("co3"@, "out_ptr"@, "NonLocal"@), e, tg, nlw, Seq::empty())
        + spec_impl_block(ig, spec_path3("co3"@, "out_ptr"@, "OutPtr"@), e, tg, nlw, spec_out_ptr_body1())
        + spec_impl_block(ig, spec_path3("co3"@, "out_ptr"@, "OutPtrWrite"@), e, tg, nlw, spec_out_ptr_body2())
        + spec_impl_block(ig, spec_path3("co3"@, "out_ptr"@, "OutPtrRead"@), e, tg, nlw, spec_result_read_body())
}

/// What the enum derives, from its name, variants, the parts of its generics
/// as `split_for_impl` gives them (`ig`, `tg`, the where clause `wc` made
/// present, the where clause `dwc` as declared, and the predicates
/// `preds`), its parameter list, and whether it is local: its
/// `ReprC` equivalent, `co3::ir::Cloned`, `co3::ir::Ir` as itself, its
/// niche, `ExternC` with its equivalent, `Encode` and `Decode` by tag with
/// one store slot per variant, and, where it is not local, its out-pointer
/// impls.
pub open spec fn spec_ffi_data_enum(
    e: Seq<char>,
    vs: Seq<SpecFfiVariant>,
    ig: Seq<SpecTok>,
    tg: Seq<SpecTok>,
    wc: Seq<SpecTok>,
    dwc: Seq<SpecTok>,
    params: Seq<SpecTok>,
    preds: Seq<SpecTok>,
    local: bool,
) -> Seq<SpecTok> {
    let c = spec_reprc_name(e);
    let (dig, dpath) = spec_decode_head(params);
    spec_reprc_enum(e, vs, ig, tg, dwc, params, preds) + spec_impl_block(ig, spec_path3("co3"@, "ir"@, "Cloned"@), e, tg, wc, Seq::empty())
        + spec_impl_block(ig, spec_path3("co3"@, "ir"@, "Ir"@), e, tg, wc, spec_type_item(seq![SpecTok::Ident("Self"@)]))
        + spec_ffi_enum_niche(e, vs, ig, tg, wc, preds) + spec_impl_block(
        ig,
        spec_path2("co3"@, "ExternC"@),
        e,
        tg,
        wc,
        seq![SpecTok::Ident("type"@), SpecTok::Ident("CType"@), SpecTok::Punct('=', false), SpecTok::Ident(c)] + tg + seq![
            SpecTok::Punct(';', false),
        ],
    ) + spec_impl_block(ig, spec_path2("co3"@, "Encode"@), e, tg, wc, spec_ffi_encode_body(e, vs)) + spec_impl_block(
        dig,
        dpath,
        e,
        tg,
        wc,
        spec_ffi_decode_body(vs),
    ) + if local {
        Seq::empty()
    } else {
        spec_ffi_out_ptr(e, vs, ig, tg, preds)
    }
}

// ---------------------------------------------------------------------------
// Building the tokens.

fn view_of(v: &FfiVariant) -> (r: (bool, Option<Vec<Tok>>))
    ensures
        r.0 == v@.supported,
        match r.1 {
            Some(t) => v@.field == Some(toks_view(t@)),
            None => v@.field is None,
        },
{
    match &v.shape {
        VariantShape::Unit => (true, None),
        VariantShape::Single(t) => {
            let mut c: Vec<Tok> = Vec::new();
            append_toks(&mut c, t);
            assert(toks_view(c@) =~= toks_view(t@));
            (true, Some(c))
        },
        VariantShape::Other => (false, None),
    }
}

/// The positions of the unsupported variants, in order.
pub fn unsupported_variants(vs: &Vec<FfiVariant>) -> (r: Vec<usize>)
    ensures
        r@ == spec_unsupported(ffi_variants_view(vs@), vs@.len() as int),
{
    let ghost vv = ffi_variants_view(vs@);
    let mut out: Vec<usize> = Vec::new();
    let mut i: usize = 0;
    while i < vs.len()
        invariant
            i <= vs@.len(),
            vv == ffi_variants_view(vs@),
            out@ == spec_unsupported(vv, i as int),
        decreases vs@.len() - i,
    {
        let (ok, _) = view_of(&vs[i]);
        let ghost o0 = out@;
        if !ok {
            out.push(i);
            assert(out@ =~= o0 + seq![i]);
        } else {
            assert(out@ =~= o0 + Seq::<usize>::empty());
        }
        i = i + 1;
    }
    out
}

fn payload_name(e: &str) -> (r: String)
    ensures
        r@ == spec_payload_name(e@),
{
    let mut v: Vec<char> = Vec::new();
    crate::text::push_str(&mut v, "__co3__");
    crate::text::push_str(&mut v, e);
    crate::text::push_str(&mut v, "Payload");
    string_of(&v)
}

fn copy_reprc(t: &str, ig: &Vec<Tok>, tg: &Vec<Tok>, wc: &Vec<Tok>) -> (r: Vec<Tok>)
    ensures
        toks_view(r@) == spec_copy_reprc(t@, toks_view(ig@), toks_view(tg@), toks_view(wc@)),
{
    proof {
        reveal_strlit("Copy");
        reveal_strlit("unsafe");
    }
    let e1: Vec<Tok> = Vec::new();
    assert(toks_view(e1@) =~= Seq::<SpecTok>::empty());
    let cp = vec![ident("Copy")];
    assert(toks_view(cp@) =~= seq![SpecTok::Ident("Copy"@)]);
    let mut out = impl_block(ig, &cp, t, tg, wc, e1);
    let u = vec![ident("unsafe")];
    assert(toks_view(u@) =~= seq![SpecTok::Ident("unsafe"@)]);
    append_toks(&mut out, &u);
    let e2: Vec<Tok> = Vec::new();
    assert(toks_view(e2@) =~= Seq::<SpecTok>::empty());
    append_toks(&mut out, &impl_block(ig, &path2("co3", "ReprC"), t, tg, wc, e2));
    out
}

fn payload_ty(field: &Option<Vec<Tok>>) -> (r: Vec<Tok>)
    ensures
        toks_view(r@) == match field {
            Some(t) => spec_c_type_tokens(toks_view(t@)),
            None => seq![SpecTok::Group(Delimiter::Parenthesis, Seq::empty())],
        },
{
    match field {
        Some(t) => c_type_tokens(t),
        None => {
            let e: Vec<Tok> = Vec::new();
            assert(toks_view(e@) =~= Seq::<SpecTok>::empty());
            let r = vec![Tok::Group(Delimiter::Parenthesis, e)];
            assert(toks_view(r@) =~= seq![SpecTok::Group(Delimiter::Parenthesis, Seq::empty())]);
            r
        },
    }
}

fn std_attrs(doc: &str, extra: Option<&str>) -> (r: Vec<Tok>)
    ensures
        toks_view(r@) == spec_attr(seq![SpecTok::Ident("repr"@), SpecTok::Group(Delimiter::Parenthesis, seq![SpecTok::Ident("C"@)])])
            + spec_attr(seq![SpecTok::Ident("doc"@), SpecTok::Punct('=', false), spec_str_lit(doc@)]) + spec_attr(
            seq![SpecTok::Ident("derive"@), SpecTok::Group(Delimiter::Parenthesis, seq![SpecTok::Ident("Clone"@)])],
        ) + match extra {
            Some(x) => spec_attr(seq![SpecTok::Ident("expect"@), SpecTok::Group(Delimiter::Parenthesis, seq![SpecTok::Ident(x@)])]),
            None => Seq::empty(),
        },
{
    proof {
        reveal_strlit("repr");
        reveal_strlit("C");
        reveal_strlit("doc");
        reveal_strlit("derive");
        reveal_strlit("Clone");
        reveal_strlit("expect");
    }
    let a1 = vec![ident("repr"), paren_ident("C")];
    assert(toks_view(a1@) =~= seq![SpecTok::Ident("repr"@), SpecTok::Group(Delimiter::Parenthesis, seq![SpecTok::Ident("C"@)])]);
    let mut out = attr_of(a1);
    let a2 = vec![ident("doc"), Tok::Punct('=', false), str_lit_of(doc)];
    assert(toks_view(a2@) =~= seq![SpecTok::Ident("doc"@), SpecTok::Punct('=', false), spec_str_lit(doc@)]);
    append_toks(&mut out, &attr_of(a2));
    let a3 = vec![ident("derive"), paren_ident("Clone")];
    assert(toks_view(a3@) =~= seq![SpecTok::Ident("derive"@), SpecTok::Group(Delimiter::Parenthesis, seq![SpecTok::Ident("Clone"@)])]);
    append_toks(&mut out, &attr_of(a3));
    match extra {
        Some(x) => {
            let a4 = vec![ident("expect"), paren_ident(x)];
            assert(toks_view(a4@) =~= seq![SpecTok::Ident("expect"@), SpecTok::Group(Delimiter::Parenthesis, seq![SpecTok::Ident(x@)])]);
            append_toks(&mut out, &attr_of(a4));
        },
        None => {
            let ghost o = toks_view(out@);
            assert(o + Seq::<SpecTok>::empty() =~= o);
        },
    }
    out
}

fn payload(e: &str, vs: &Vec<FfiVariant>, ig: &Vec<Tok>, tg: &Vec<Tok>, wc: &Vec<Tok>) -> (r: Vec<Tok>)
    ensures
        toks_view(r@) == spec_payload(e@, ffi_variants_view(vs@), toks_view(ig@), toks_view(tg@), toks_view(wc@)),
{
    proof {
        reveal_strlit("union");
    }
    let ghost vv = ffi_variants_view(vs@);
    let mut parts: Vec<Vec<Tok>> = Vec::new();
    let mut i: usize = 0;
    while i < vs.len()
        invariant
            i <= vs@.len(),
            vv == ffi_variants_view(vs@),
            parts@.len() == i,
            forall|j: int|
                0 <= j < i ==> toks_view((#[trigger] parts@[j])@) == seq![SpecTok::Ident(vv[j].name), SpecTok::Punct(':', false)]
                    + spec_payload_ty(vv[j]),
        decreases vs@.len() - i,
    {
        let (_, field) = view_of(&vs[i]);
        let mut x = vec![Tok::Ident(vs[i].name.clone()), Tok::Punct(':', false)];
        assert(toks_view(x@) =~= seq![SpecTok::Ident(vv[i as int].name), SpecTok::Punct(':', false)]);
        append_toks(&mut x, &payload_ty(&field));
        parts.push(x);
        i = i + 1;
    }
    assert(lists_view(parts@) =~= Seq::new(
        vv.len(),
        |i: int| seq![SpecTok::Ident(vv[i].name), SpecTok::Punct(':', false)] + spec_payload_ty(vv[i]),
    ));
    let fields = comma_joined(&parts);
    let ghost fv = toks_view(fields@);
    let p = payload_name(e);
    let c = reprc_name(e);
    let doc = crate::struct_codegen::cat(&vec![" Payload of [`", c.as_str(), "`]"]);
    let mut out = std_attrs(doc.as_str(), Some("non_snake_case"));
    proof {
        reveal_strlit("non_snake_case");
    }
    let u = vec![ident("union"), Tok::Ident(p.clone())];
    assert(toks_view(u@) =~= seq![SpecTok::Ident("union"@), SpecTok::Ident(spec_payload_name(e@))]);
    append_toks(&mut out, &u);
    append_toks(&mut out, ig);
    append_toks(&mut out, wc);
    let g = vec![Tok::Group(Delimiter::Brace, fields)];
    assert(toks_view(g@) =~= seq![SpecTok::Group(Delimiter::Brace, fv)]);
    append_toks(&mut out, &g);
    append_toks(&mut out, &copy_reprc(p.as_str(), ig, tg, wc));
    out
}

fn reprc_enum(
    e: &str,
    vs: &Vec<FfiVariant>,
    ig: &Vec<Tok>,
    tg: &Vec<Tok>,
    wc: &Vec<Tok>,
    params: &Vec<Tok>,
    preds: &Vec<Tok>,
) -> (r: Vec<Tok>)
    ensures
        toks_view(r@) == spec_reprc_enum(e@, ffi_variants_view(vs@), toks_view(ig@), toks_view(tg@), toks_view(wc@), toks_view(params@), toks_view(preds@)),
{
    proof {
        reveal_strlit("tag");
        reveal_strlit("payload");
        reveal_strlit("struct");
        reveal_strlit("impl");
        reveal_strlit("Robust");
        reveal_strlit("for");
        reveal_strlit("where");
    }
    let c = reprc_name(e);
    let p = payload_name(e);
    let mut fields = vec![ident("tag"), Tok::Punct(':', false)];
    assert(toks_view(fields@) =~= seq![SpecTok::Ident("tag"@), SpecTok::Punct(':', false)]);
    append_toks(&mut fields, &path3("core", "ffi", "c_uint"));
    let f2 = vec![Tok::Punct(',', false), ident("payload"), Tok::Punct(':', false), Tok::Ident(p)];
    assert(toks_view(f2@) =~= seq![SpecTok::Punct(',', false), SpecTok::Ident("payload"@), SpecTok::Punct(':', false), SpecTok::Ident(spec_payload_name(e@))]);
    append_toks(&mut fields, &f2);
    append_toks(&mut fields, tg);
    let cm = vec![Tok::Punct(',', false)];
    assert(toks_view(cm@) =~= seq![SpecTok::Punct(',', false)]);
    append_toks(&mut fields, &cm);
    let ghost fv = toks_view(fields@);
    let mut out = payload(e, vs, ig, tg, wc);
    let doc = crate::struct_codegen::cat(&vec![" [`ReprC`] equivalent of [`", e, "`]"]);
    append_toks(&mut out, &std_attrs(doc.as_str(), None));
    let st = vec![ident("struct"), Tok::Ident(c.clone())];
    assert(toks_view(st@) =~= seq![SpecTok::Ident("struct"@), SpecTok::Ident(spec_reprc_name(e@))]);
    append_toks(&mut out, &st);
    append_toks(&mut out, ig);
    append_toks(&mut out, wc);
    let g = vec![Tok::Group(Delimiter::Brace, fields)];
    assert(toks_view(g@) =~= seq![SpecTok::Group(Delimiter::Brace, fv)]);
    append_toks(&mut out, &g);
    append_toks(&mut out, &copy_reprc(c.as_str(), ig, tg, wc));
    append_toks(&mut out, &path2("co3", "mineral"));
    let mut pc: Vec<Tok> = Vec::new();
    append_toks(&mut pc, params);
    assert(toks_view(pc@) =~= toks_view(params@));
    let mut dc: Vec<Tok> = Vec::new();
    append_toks(&mut dc, preds);
    assert(toks_view(dc@) =~= toks_view(preds@));
    let e3: Vec<Tok> = Vec::new();
    assert(toks_view(e3@) =~= Seq::<SpecTok>::empty());
    let inner = vec![
        ident("impl"),
        Tok::Group(Delimiter::Parenthesis, pc),
        ident("Robust"),
        ident("for"),
        Tok::Ident(c),
        ident("where"),
        Tok::Group(Delimiter::Parenthesis, dc),
        Tok::Group(Delimiter::Brace, e3),
    ];
    let ghost iv = seq![
        SpecTok::Ident("impl"@),
        SpecTok::Group(Delimiter::Parenthesis, toks_view(params@)),
        SpecTok::Ident("Robust"@),
        SpecTok::Ident("for"@),
        SpecTok::Ident(spec_reprc_name(e@)),
        SpecTok::Ident("where"@),
        SpecTok::Group(Delimiter::Parenthesis, toks_view(preds@)),
        SpecTok::Group(Delimiter::Brace, Seq::empty()),
    ];
    assert(toks_view(inner@) =~= iv);
    let m = vec![Tok::Punct('!', false), Tok::Group(Delimiter::Brace, inner)];
    assert(toks_view(m@) =~= seq![SpecTok::Punct('!', false), SpecTok::Group(Delimiter::Brace, iv)]);
    append_toks(&mut out, &m);
    out
}

fn single_types(vs: &Vec<FfiVariant>) -> (r: Vec<Vec<Tok>>)
    ensures
        lists_view(r@) == spec_single_types(ffi_variants_view(vs@), vs@.len() as int),
{
    let ghost vv = ffi_variants_view(vs@);
    let mut out: Vec<Vec<Tok>> = Vec::new();
    let mut i: usize = 0;
    assert(lists_view(out@) =~= Seq::<Seq<SpecTok>>::empty());
    while i < vs.len()
        invariant
            i <= vs@.len(),
            vv == ffi_variants_view(vs@),
            lists_view(out@) == spec_single_types(vv, i as int),
        decreases vs@.len() - i,
    {
        let ghost o0 = lists_view(out@);
        let (_, field) = view_of(&vs[i]);
        match field {
            Some(t) => {
                let ghost tv = toks_view(t@);
                out.push(t);
                assert(lists_view(out@) =~= o0 + seq![tv]);
            },
            None => {
                assert(lists_view(out@) =~= o0 + Seq::<Seq<SpecTok>>::empty());
            },
        }
        i = i + 1;
    }
    out
}

fn ffi_enum_niche(e: &str, vs: &Vec<FfiVariant>, ig: &Vec<Tok>, tg: &Vec<Tok>, wc: &Vec<Tok>, preds: &Vec<Tok>) -> (r: Vec<Tok>)
    ensures
        toks_view(r@) == spec_ffi_enum_niche(e@, ffi_variants_view(vs@), toks_view(ig@), toks_view(tg@), toks_view(wc@), toks_view(preds@)),
{
    proof {
        reveal_strlit("tag");
        reveal_strlit("payload");
        reveal_strlit("unsafe");
        reveal_strlit("const");
        reveal_strlit("NICHE_VALUE");
    }
    let ghost vv = ffi_variants_view(vs@);
    let c = reprc_name(e);
    let mut out: Vec<Tok> = Vec::new();
    if vs.len() as u64 >= 0xffff_ffffu64 {
        let singles = single_types(vs);
        let ghost sv = lists_view(singles@);
        let b = without_niche_bound();
        let mut bounds: Vec<Vec<Tok>> = Vec::new();
        let mut i: usize = 0;
        while i < singles.len()
            invariant
                i <= singles@.len(),
                sv == lists_view(singles@),
                toks_view(b@) == spec_without_niche_bound(),
                bounds@.len() == i,
                forall|j: int|
                    0 <= j < i ==> toks_view((#[trigger] bounds@[j])@) == sv[j] + seq![SpecTok::Punct(':', false)]
                        + spec_without_niche_bound(),
            decreases singles@.len() - i,
        {
            let mut x: Vec<Tok> = Vec::new();
            assert(toks_view(x@) =~= Seq::<SpecTok>::empty());
            assert(toks_view(singles@[i as int]@) == sv[i as int]);
            append_toks(&mut x, &singles[i]);
            let cl = vec![Tok::Punct(':', false)];
            assert(toks_view(cl@) =~= seq![SpecTok::Punct(':', false)]);
            append_toks(&mut x, &cl);
            append_toks(&mut x, &b);
            assert(toks_view(x@) =~= sv[i as int] + seq![SpecTok::Punct(':', false)] + spec_without_niche_bound());
            bounds.push(x);
            i = i + 1;
        }
        assert(lists_view(bounds@) =~= Seq::new(
            sv.len(),
            |i: int| sv[i] + seq![SpecTok::Punct(':', false)] + spec_without_niche_bound(),
        ));
        let w = extended_where(preds, &bounds);
        out = impl_block(ig, &path3("co3", "niche", "Ir"), e, tg, &w, type_item(path3("co3", "niche", "WithoutNiche")));
    } else {
        assert(toks_view(out@) =~= Seq::<SpecTok>::empty());
    }
    append_toks(&mut out, &impl_block(ig, &path3("co3", "niche", "Ir"), e, tg, wc, type_item(path3("co3", "niche", "WithCustomNiche"))));
    let mut z = path3("core", "mem", "zeroed");
    let e1: Vec<Tok> = Vec::new();
    assert(toks_view(e1@) =~= Seq::<SpecTok>::empty());
    let ghost z0 = toks_view(z@);
    z.push(Tok::Group(Delimiter::Parenthesis, e1));
    assert(toks_view(z@) =~= z0 + seq![SpecTok::Group(Delimiter::Parenthesis, Seq::empty())]);
    let ghost zv = toks_view(z@);
    let inner = vec![
        ident("tag"),
        Tok::Punct(':', false),
        lit(vs.len()),
        Tok::Punct(',', false),
        ident("payload"),
        Tok::Punct(':', false),
        ident("unsafe"),
        Tok::Group(Delimiter::Brace, z),
    ];
    let ghost innerv = seq![
        SpecTok::Ident("tag"@),
        SpecTok::Punct(':', false),
        SpecTok::Literal(spec_decimal(vv.len())),
        SpecTok::Punct(',', false),
        SpecTok::Ident("payload"@),
        SpecTok::Punct(':', false),
        SpecTok::Ident("unsafe"@),
        SpecTok::Group(Delimiter::Brace, zv),
    ];
    assert(toks_view(inner@) =~= innerv);
    let body = vec![
        ident("const"),
        ident("NICHE_VALUE"),
        Tok::Punct(':', false),
        Tok::Ident(c.clone()),
        Tok::Punct('=', false),
        Tok::Ident(c),
        Tok::Group(Delimiter::Brace, inner),
        Tok::Punct(';', false),
    ];
    assert(toks_view(body@) =~= seq![
        SpecTok::Ident("const"@),
        SpecTok::Ident("NICHE_VALUE"@),
        SpecTok::Punct(':', false),
        SpecTok::Ident(spec_reprc_name(e@)),
        SpecTok::Punct('=', false),
    ] + seq![SpecTok::Ident(spec_reprc_name(e@)), SpecTok::Group(Delimiter::Brace, innerv)] + seq![SpecTok::Punct(';', false)]);
    append_toks(&mut out, &impl_block(ig, &path3("co3", "niche", "Niche"), e, tg, wc, body));
    out
}

fn variant_stores(vs: &Vec<FfiVariant>) -> (r: (Vec<Vec<Tok>>, Vec<Vec<Tok>>))
    ensures
        lists_view(r.0@) == spec_variant_stores(ffi_variants_view(vs@)).0,
        lists_view(r.1@) == spec_variant_stores(ffi_variants_view(vs@)).1,
{
    proof {
        reveal_strlit("as");
        reveal_strlit("Store");
    }
    let ghost vv = ffi_variants_view(vs@);
    let mut a: Vec<Vec<Tok>> = Vec::new();
    let mut b: Vec<Vec<Tok>> = Vec::new();
    let mut i: usize = 0;
    while i < vs.len()
        invariant
            i <= vs@.len(),
            vv == ffi_variants_view(vs@),
            a@.len() == i,
            b@.len() == i,
            forall|j: int| 0 <= j < i ==> toks_view((#[trigger] a@[j])@) == spec_variant_rust_store(vv[j]),
            forall|j: int| 0 <= j < i ==> toks_view((#[trigger] b@[j])@) == spec_variant_ffi_store(vv[j]),
        decreases vs@.len() - i,
    {
        let (_, field) = view_of(&vs[i]);
        match field {
            None => {
                let e1: Vec<Tok> = Vec::new();
                assert(toks_view(e1@) =~= Seq::<SpecTok>::empty());
                let x = vec![Tok::Group(Delimiter::Parenthesis, e1)];
                assert(toks_view(x@) =~= spec_variant_rust_store(vv[i as int]));
                let e2: Vec<Tok> = Vec::new();
                assert(toks_view(e2@) =~= Seq::<SpecTok>::empty());
                let y = vec![Tok::Group(Delimiter::Parenthesis, e2)];
                assert(toks_view(y@) =~= spec_variant_ffi_store(vv[i as int]));
                a.push(x);
                b.push(y);
            },
            Some(t) => {
                let asv = vec![ident("as")];
                assert(toks_view(asv@) =~= seq![SpecTok::Ident("as"@)]);
                let mut x = vec![Tok::Punct('<', false)];
                append_toks(&mut x, &t);
                append_toks(&mut x, &asv);
                append_toks(&mut x, &path2("co3", "Encode"));
                let tail = vec![Tok::Punct('>', false), Tok::Punct(':', true), Tok::Punct(':', false), ident("Store")];
                assert(toks_view(tail@) =~= seq![SpecTok::Punct('>', false), SpecTok::Punct(':', true), SpecTok::Punct(':', false), SpecTok::Ident("Store"@)]);
                append_toks(&mut x, &tail);
                assert(toks_view(x@) =~= spec_variant_rust_store(vv[i as int]));
                let mut y = vec![Tok::Punct('<', false)];
                append_toks(&mut y, &t);
                append_toks(&mut y, &asv);
                append_toks(&mut y, &path2("co3", "Decode"));
                let lt = vec![Tok::Punct('<', false)];
                assert(toks_view(lt@) =~= seq![SpecTok::Punct('<', false)]);
                append_toks(&mut y, &lt);
                append_toks(&mut y, &lifetime("_dšč"));
                let tail2 = vec![Tok::Punct('>', false), Tok::Punct('>', false), Tok::Punct(':', true), Tok::Punct(':', false), ident("Store")];
                assert(toks_view(tail2@) =~= seq![
                    SpecTok::Punct('>', false),
                    SpecTok::Punct('>', false),
                    SpecTok::Punct(':', true),
                    SpecTok::Punct(':', false),
                    SpecTok::Ident("Store"@),
                ]);
                append_toks(&mut y, &tail2);
                assert(toks_view(y@) =~= spec_variant_ffi_store(vv[i as int]));
                a.push(x);
                b.push(y);
            },
        }
        i = i + 1;
    }
    assert(lists_view(a@) =~= spec_variant_stores(vv).0);
    assert(lists_view(b@) =~= spec_variant_stores(vv).1);
    (a, b)
}

fn encode_store_init(n: usize) -> (r: Vec<Tok>)
    ensures
        toks_view(r@) == spec_encode_store_init(n as nat),
{
    proof {
        reveal_strlit("let");
        reveal_strlit("store");
        reveal_strlit("insert");
        reveal_strlit("Default");
        reveal_strlit("default");
    }
    if n > 12 {
        let e: Vec<Tok> = Vec::new();
        assert(toks_view(e@) =~= Seq::<SpecTok>::empty());
        let call = vec![ident("Default"), Tok::Punct(':', false), ident("default"), Tok::Group(Delimiter::Parenthesis, e)];
        let ghost cv = seq![
            SpecTok::Ident("Default"@),
            SpecTok::Punct(':', false),
            SpecTok::Ident("default"@),
            SpecTok::Group(Delimiter::Parenthesis, Seq::empty()),
        ];
        assert(toks_view(call@) =~= cv);
        let r = vec![
            ident("let"),
            ident("store"),
            Tok::Punct('=', false),
            ident("store"),
            Tok::Punct('.', false),
            ident("insert"),
            Tok::Group(Delimiter::Parenthesis, call),
            Tok::Punct(';', false),
        ];
        assert(toks_view(r@) =~= spec_encode_store_init(n as nat));
        r
    } else {
        let r: Vec<Tok> = Vec::new();
        assert(toks_view(r@) =~= spec_encode_store_init(n as nat));
        r
    }
}

fn fat() -> (r: Vec<Tok>)
    ensures
        toks_view(r@) == spec_fat(),
{
    let r = vec![Tok::Punct('=', true), Tok::Punct('>', false)];
    assert(toks_view(r@) =~= spec_fat());
    r
}

fn self_v(v: &String) -> (r: Vec<Tok>)
    ensures
        toks_view(r@) == spec_self_v(v@),
{
    proof {
        reveal_strlit("Self");
    }
    let r = vec![ident("Self"), Tok::Punct(':', true), Tok::Punct(':', false), Tok::Ident(v.clone())];
    assert(toks_view(r@) =~= spec_self_v(v@));
    r
}

fn encode_arm(e: &str, i: usize, v: &FfiVariant) -> (r: Vec<Tok>)
    ensures
        toks_view(r@) == spec_ffi_encode_arm(e@, i as nat, v@),
{
    proof {
        reveal_strlit("tag");
        reveal_strlit("payload");
        reveal_strlit("let");
    }
    let c = reprc_name(e);
    let p = payload_name(e);
    let (_, field) = view_of(v);
    let mut out = self_v(&v.name);
    let ghost sv = spec_self_v(v@.name);
    match field {
        None => {
            append_toks(&mut out, &fat());
            let e1: Vec<Tok> = Vec::new();
            assert(toks_view(e1@) =~= Seq::<SpecTok>::empty());
            let pin = vec![Tok::Ident(v.name.clone()), Tok::Punct(':', false), Tok::Group(Delimiter::Parenthesis, e1)];
            let ghost pinv = seq![
                SpecTok::Ident(v@.name),
                SpecTok::Punct(':', false),
                SpecTok::Group(Delimiter::Parenthesis, Seq::empty()),
            ];
            assert(toks_view(pin@) =~= pinv);
            let inner = vec![
                ident("tag"),
                Tok::Punct(':', false),
                lit(i),
                Tok::Punct(',', false),
                ident("payload"),
                Tok::Punct(':', false),
                Tok::Ident(p),
                Tok::Group(Delimiter::Brace, pin),
            ];
            let ghost innerv = seq![
                SpecTok::Ident("tag"@),
                SpecTok::Punct(':', false),
                SpecTok::Literal(spec_decimal(i as nat)),
                SpecTok::Punct(',', false),
                SpecTok::Ident("payload"@),
                SpecTok::Punct(':', false),
                SpecTok::Ident(spec_payload_name(e@)),
                SpecTok::Group(Delimiter::Brace, pinv),
            ];
            assert(toks_view(inner@) =~= innerv);
            let tail = vec![Tok::Ident(c), Tok::Group(Delimiter::Brace, inner), Tok::Punct(',', false)];
            assert(toks_view(tail@) =~= seq![
                SpecTok::Ident(spec_reprc_name(e@)),
                SpecTok::Group(Delimiter::Brace, innerv),
                SpecTok::Punct(',', false),
            ]);
            append_toks(&mut out, &tail);
            assert(toks_view(out@) =~= spec_ffi_encode_arm(e@, i as nat, v@));
        },
        Some(_) => {
            let pl = vec![ident("payload")];
            assert(toks_view(pl@) =~= seq![SpecTok::Ident("payload"@)]);
            let g = vec![Tok::Group(Delimiter::Parenthesis, pl)];
            assert(toks_view(g@) =~= seq![SpecTok::Group(Delimiter::Parenthesis, seq![SpecTok::Ident("payload"@)])]);
            append_toks(&mut out, &g);
            append_toks(&mut out, &fat());
            let mut args = vec![ident("payload"), Tok::Punct(',', false)];
            assert(toks_view(args@) =~= seq![SpecTok::Ident("payload"@), SpecTok::Punct(',', false)]);
            append_toks(&mut args, &slot(i));
            let ghost argsv = toks_view(args@);
            let mut enc = vec![Tok::Ident(v.name.clone()), Tok::Punct(':', false)];
            assert(toks_view(enc@) =~= seq![SpecTok::Ident(v@.name), SpecTok::Punct(':', false)]);
            append_toks(&mut enc, &path3("co3", "Encode", "encode"));
            let ghost enc0 = toks_view(enc@);
            enc.push(Tok::Group(Delimiter::Parenthesis, args));
            assert(toks_view(enc@) =~= enc0 + seq![SpecTok::Group(Delimiter::Parenthesis, argsv)]);
            let ghost encv = toks_view(enc@);
            let ctor = vec![ident("tag"), Tok::Punct(':', false), lit(i), Tok::Punct(',', false), ident("payload")];
            let ghost ctorv = seq![
                SpecTok::Ident("tag"@),
                SpecTok::Punct(':', false),
                SpecTok::Literal(spec_decimal(i as nat)),
                SpecTok::Punct(',', false),
                SpecTok::Ident("payload"@),
            ];
            assert(toks_view(ctor@) =~= ctorv);
            let block = vec![
                ident("let"),
                ident("payload"),
                Tok::Punct('=', false),
                Tok::Ident(p),
                Tok::Group(Delimiter::Brace, enc),
                Tok::Punct(';', false),
                Tok::Ident(c),
                Tok::Group(Delimiter::Brace, ctor),
            ];
            let ghost blockv = seq![
                SpecTok::Ident("let"@),
                SpecTok::Ident("payload"@),
                SpecTok::Punct('=', false),
                SpecTok::Ident(spec_payload_name(e@)),
                SpecTok::Group(Delimiter::Brace, encv),
                SpecTok::Punct(';', false),
                SpecTok::Ident(spec_reprc_name(e@)),
                SpecTok::Group(Delimiter::Brace, ctorv),
            ];
            assert(toks_view(block@) =~= blockv);
            let tail = vec![Tok::Group(Delimiter::Brace, block), Tok::Punct(',', false)];
            assert(toks_view(tail@) =~= seq![SpecTok::Group(Delimiter::Brace, blockv), SpecTok::Punct(',', false)]);
            append_toks(&mut out, &tail);
            assert(toks_view(out@) =~= spec_ffi_encode_arm(e@, i as nat, v@));
        },
    }
    out
}

fn decode_arm(i: usize, v: &FfiVariant) -> (r: Vec<Tok>)
    ensures
        toks_view(r@) == spec_ffi_decode_arm(i as nat, v@),
{
    proof {
        reveal_strlit("Ok");
        reveal_strlit("let");
        reveal_strlit("payload");
        reveal_strlit("source");
        reveal_strlit("map");
    }
    let (_, field) = view_of(v);
    let mut out = vec![lit(i)];
    assert(toks_view(out@) =~= seq![SpecTok::Literal(spec_decimal(i as nat))]);
    append_toks(&mut out, &fat());
    let sv = self_v(&v.name);
    let ghost svv = toks_view(sv@);
    match field {
        None => {
            let tail = vec![ident("Ok"), Tok::Group(Delimiter::Parenthesis, sv), Tok::Punct(',', false)];
            assert(toks_view(tail@) =~= seq![
                SpecTok::Ident("Ok"@),
                SpecTok::Group(Delimiter::Parenthesis, svv),
                SpecTok::Punct(',', false),
            ]);
            append_toks(&mut out, &tail);
            assert(toks_view(out@) =~= spec_ffi_decode_arm(i as nat, v@));
        },
        Some(_) => {
            let mut block = vec![
                ident("let"),
                ident("payload"),
                Tok::Punct('=', false),
                ident("source"),
                Tok::Punct('.', false),
                ident("payload"),
                Tok::Punct('.', false),
                Tok::Ident(v.name.clone()),
                Tok::Punct(';', false),
            ];
            assert(toks_view(block@) =~= seq![
                SpecTok::Ident("let"@),
                SpecTok::Ident("payload"@),
                SpecTok::Punct('=', false),
                SpecTok::Ident("source"@),
                SpecTok::Punct('.', false),
                SpecTok::Ident("payload"@),
                SpecTok::Punct('.', false),
                SpecTok::Ident(v@.name),
                SpecTok::Punct(';', false),
            ]);
            append_toks(&mut block, &path3("co3", "Decode", "decode"));
            let mut args = vec![ident("payload"), Tok::Punct(',', false)];
            assert(toks_view(args@) =~= seq![SpecTok::Ident("payload"@), SpecTok::Punct(',', false)]);
            append_toks(&mut args, &slot(i));
            let ghost argsv = toks_view(args@);
            let call = vec![
                Tok::Group(Delimiter::Parenthesis, args),
                Tok::Punct('.', false),
                ident("map"),
                Tok::Group(Delimiter::Parenthesis, sv),
            ];
            assert(toks_view(call@) =~= seq![
                SpecTok::Group(Delimiter::Parenthesis, argsv),
                SpecTok::Punct('.', false),
                SpecTok::Ident("map"@),
                SpecTok::Group(Delimiter::Parenthesis, svv),
            ]);
            append_toks(&mut block, &call);
            let ghost blockv = toks_view(block@);
            let tail = vec![Tok::Group(Delimiter::Brace, block), Tok::Punct(',', false)];
            assert(toks_view(tail@) =~= seq![SpecTok::Group(Delimiter::Brace, blockv), SpecTok::Punct(',', false)]);
            append_toks(&mut out, &tail);
            assert(toks_view(out@) =~= spec_ffi_decode_arm(i as nat, v@));
        },
    }
    out
}

fn encode_arms(e: &str, vs: &Vec<FfiVariant>) -> (r: Vec<Tok>)
    ensures
        toks_view(r@) == spec_ffi_encode_arms(e@, ffi_variants_view(vs@), vs@.len() as int),
{
    let ghost vv = ffi_variants_view(vs@);
    let mut out: Vec<Tok> = Vec::new();
    assert(toks_view(out@) =~= Seq::<SpecTok>::empty());
    let mut i: usize = 0;
    while i < vs.len()
        invariant
            i <= vs@.len(),
            vv == ffi_variants_view(vs@),
            toks_view(out@) == spec_ffi_encode_arms(e@, vv, i as int),
        decreases vs@.len() - i,
    {
        append_toks(&mut out, &encode_arm(e, i, &vs[i]));
        i = i + 1;
    }
    out
}

fn decode_arms(vs: &Vec<FfiVariant>) -> (r: Vec<Tok>)
    ensures
        toks_view(r@) == spec_ffi_decode_arms(ffi_variants_view(vs@), vs@.len() as int),
{
    let ghost vv = ffi_variants_view(vs@);
    let mut out: Vec<Tok> = Vec::new();
    assert(toks_view(out@) =~= Seq::<SpecTok>::empty());
    let mut i: usize = 0;
    while i < vs.len()
        invariant
            i <= vs@.len(),
            vv == ffi_variants_view(vs@),
            toks_view(out@) == spec_ffi_decode_arms(vv, i as int),
        decreases vs@.len() - i,
    {
        append_toks(&mut out, &decode_arm(i, &vs[i]));
        i = i + 1;
    }
    out
}

fn ffi_encode(e: &str, vs: &Vec<FfiVariant>, ig: &Vec<Tok>, tg: &Vec<Tok>, wc: &Vec<Tok>) -> (r: Vec<Tok>)
    ensures
        toks_view(r@) == spec_impl_block(
            toks_view(ig@),
            spec_path2("co3"@, "Encode"@),
            e@,
            toks_view(tg@),
            toks_view(wc@),
            spec_ffi_encode_body(e@, ffi_variants_view(vs@)),
        ),
{
    proof {
        reveal_strlit("Self");
        reveal_strlit("type");
        reveal_strlit("Store");
        reveal_strlit("fn");
        reveal_strlit("encode");
        reveal_strlit("self");
        reveal_strlit("where");
        reveal_strlit("match");
    }
    let ghost vv = ffi_variants_view(vs@);
    let (rs, ffs) = variant_stores(vs);
    let (rust_store, _ffi_store, _init) = gen_store_types(vs.len(), rs, ffs);
    let mut eb = vec![ident("type"), ident("Store"), Tok::Punct('=', false)];
    assert(toks_view(eb@) =~= seq![SpecTok::Ident("type"@), SpecTok::Ident("Store"@), SpecTok::Punct('=', false)]);
    append_toks(&mut eb, &rust_store);
    let h1 = vec![Tok::Punct(';', false), ident("fn"), ident("encode"), Tok::Punct('<', false)];
    assert(toks_view(h1@) =~= seq![SpecTok::Punct(';', false), SpecTok::Ident("fn"@), SpecTok::Ident("encode"@), SpecTok::Punct('<', false)]);
    append_toks(&mut eb, &h1);
    append_toks(&mut eb, &lifetime("_išč"));
    let p0 = vec![ident("self"), Tok::Punct(',', false)];
    assert(toks_view(p0@) =~= seq![SpecTok::Ident("self"@), SpecTok::Punct(',', false)]);
    let ep = store_param_after(p0);
    let ghost epv = toks_view(ep@);
    assert(epv =~= seq![SpecTok::Ident("self"@), SpecTok::Punct(',', false)] + spec_store_param());
    let h2 = vec![Tok::Punct('>', false), Tok::Group(Delimiter::Parenthesis, ep)];
    assert(toks_view(h2@) =~= seq![SpecTok::Punct('>', false), SpecTok::Group(Delimiter::Parenthesis, epv)]);
    append_toks(&mut eb, &h2);
    let ar = vec![Tok::Punct('-', true), Tok::Punct('>', false)];
    assert(toks_view(ar@) =~= spec_arrow());
    append_toks(&mut eb, &ar);
    append_toks(&mut eb, &self_c_type());
    let h3 = vec![ident("where"), ident("Self"), Tok::Punct(':', false)];
    assert(toks_view(h3@) =~= seq![SpecTok::Ident("where"@), SpecTok::Ident("Self"@), SpecTok::Punct(':', false)]);
    append_toks(&mut eb, &h3);
    append_toks(&mut eb, &lifetime("_išč"));
    let mut body = encode_store_init(vs.len());
    let arms = encode_arms(e, vs);
    let ghost armsv = toks_view(arms@);
    let m = vec![ident("match"), ident("self"), Tok::Group(Delimiter::Brace, arms)];
    assert(toks_view(m@) =~= seq![SpecTok::Ident("match"@), SpecTok::Ident("self"@), SpecTok::Group(Delimiter::Brace, armsv)]);
    append_toks(&mut body, &m);
    let ghost bodyv = toks_view(body@);
    let g = vec![Tok::Group(Delimiter::Brace, body)];
    assert(toks_view(g@) =~= seq![SpecTok::Group(Delimiter::Brace, bodyv)]);
    append_toks(&mut eb, &g);
    assert(toks_view(eb@) =~= spec_ffi_encode_body(e@, vv));
    impl_block(ig, &path2("co3", "Encode"), e, tg, wc, eb)
}

fn decode_head(params: &Vec<Tok>) -> (r: (Vec<Tok>, Vec<Tok>))
    ensures
        (toks_view(r.0@), toks_view(r.1@)) == spec_decode_head(toks_view(params@)),
{
    let mut dig = vec![Tok::Punct('<', false)];
    assert(toks_view(dig@) =~= seq![SpecTok::Punct('<', false)]);
    append_toks(&mut dig, &lifetime("_dšč"));
    let comma = vec![Tok::Punct(',', false)];
    assert(toks_view(comma@) =~= seq![SpecTok::Punct(',', false)]);
    append_toks(&mut dig, &comma);
    append_toks(&mut dig, params);
    let gt = vec![Tok::Punct('>', false)];
    assert(toks_view(gt@) =~= seq![SpecTok::Punct('>', false)]);
    append_toks(&mut dig, &gt);
    let mut dpath = path2("co3", "Decode");
    let lt = vec![Tok::Punct('<', false)];
    assert(toks_view(lt@) =~= seq![SpecTok::Punct('<', false)]);
    append_toks(&mut dpath, &lt);
    append_toks(&mut dpath, &lifetime("_dšč"));
    append_toks(&mut dpath, &gt);
    (dig, dpath)
}

fn ffi_decode(e: &str, vs: &Vec<FfiVariant>, tg: &Vec<Tok>, wc: &Vec<Tok>, params: &Vec<Tok>) -> (r: Vec<Tok>)
    ensures
        toks_view(r@) == spec_impl_block(
            spec_decode_head(toks_view(params@)).0,
            spec_decode_head(toks_view(params@)).1,
            e@,
            toks_view(tg@),
            toks_view(wc@),
            spec_ffi_decode_body(ffi_variants_view(vs@)),
        ),
{
    proof {
        reveal_strlit("Self");
        reveal_strlit("type");
        reveal_strlit("Store");
        reveal_strlit("fn");
        reveal_strlit("unsafe");
        reveal_strlit("decode");
        reveal_strlit("source");
        reveal_strlit("match");
        reveal_strlit("tag");
        reveal_strlit("_");
        reveal_strlit("Err");
    }
    let ghost vv = ffi_variants_view(vs@);
    let (rs, ffs) = variant_stores(vs);
    let (_rust_store, ffi_store, init) = gen_store_types(vs.len(), rs, ffs);
    let (dig, dpath) = decode_head(params);
    let comma = vec![Tok::Punct(',', false)];
    assert(toks_view(comma@) =~= seq![SpecTok::Punct(',', false)]);
    let mut db = vec![ident("type"), ident("Store"), Tok::Punct('=', false)];
    assert(toks_view(db@) =~= seq![SpecTok::Ident("type"@), SpecTok::Ident("Store"@), SpecTok::Punct('=', false)]);
    append_toks(&mut db, &ffi_store);
    let d1 = vec![Tok::Punct(';', false), ident("unsafe"), ident("fn"), ident("decode"), Tok::Punct('<', false)];
    assert(toks_view(d1@) =~= seq![
        SpecTok::Punct(';', false),
        SpecTok::Ident("unsafe"@),
        SpecTok::Ident("fn"@),
        SpecTok::Ident("decode"@),
        SpecTok::Punct('<', false),
    ]);
    append_toks(&mut db, &d1);
    append_toks(&mut db, &lifetime("_išč"));
    let colon = vec![Tok::Punct(':', false)];
    assert(toks_view(colon@) =~= seq![SpecTok::Punct(':', false)]);
    append_toks(&mut db, &colon);
    append_toks(&mut db, &lifetime("_dšč"));
    let mut dp = vec![ident("source"), Tok::Punct(':', false)];
    assert(toks_view(dp@) =~= seq![SpecTok::Ident("source"@), SpecTok::Punct(':', false)]);
    append_toks(&mut dp, &self_c_type());
    append_toks(&mut dp, &comma);
    let ghost dp0 = toks_view(dp@);
    let dp = store_param_after(dp);
    let ghost dpv = toks_view(dp@);
    assert(dpv =~= dp0 + spec_store_param());
    let d2 = vec![Tok::Punct('>', false), Tok::Group(Delimiter::Parenthesis, dp)];
    assert(toks_view(d2@) =~= seq![SpecTok::Punct('>', false), SpecTok::Group(Delimiter::Parenthesis, dpv)]);
    append_toks(&mut db, &d2);
    let ar = vec![Tok::Punct('-', true), Tok::Punct('>', false)];
    assert(toks_view(ar@) =~= spec_arrow());
    append_toks(&mut db, &ar);
    append_toks(&mut db, &path2("co3", "Result"));
    let mut arms = decode_arms(vs);
    let wild = vec![ident("_")];
    assert(toks_view(wild@) =~= seq![SpecTok::Ident("_"@)]);
    append_toks(&mut arms, &wild);
    append_toks(&mut arms, &fat());
    let trap = path3("co3", "FfiReturn", "TrapRepresentation");
    let ghost trapv = toks_view(trap@);
    let err = vec![ident("Err"), Tok::Group(Delimiter::Parenthesis, trap)];
    assert(toks_view(err@) =~= seq![SpecTok::Ident("Err"@), SpecTok::Group(Delimiter::Parenthesis, trapv)]);
    append_toks(&mut arms, &err);
    let ghost armsv = toks_view(arms@);
    let mut body: Vec<Tok> = Vec::new();
    append_toks(&mut body, &init);
    let m = vec![ident("match"), ident("source"), Tok::Punct('.', false), ident("tag"), Tok::Group(Delimiter::Brace, arms)];
    assert(toks_view(m@) =~= seq![
        SpecTok::Ident("match"@),
        SpecTok::Ident("source"@),
        SpecTok::Punct('.', false),
        SpecTok::Ident("tag"@),
        SpecTok::Group(Delimiter::Brace, armsv),
    ]);
    append_toks(&mut body, &m);
    let ghost bodyv = toks_view(body@);
    let d3 = vec![Tok::Punct('<', false), ident("Self"), Tok::Punct('>', false), Tok::Group(Delimiter::Brace, body)];
    assert(toks_view(d3@) =~= seq![
        SpecTok::Punct('<', false),
        SpecTok::Ident("Self"@),
        SpecTok::Punct('>', false),
        SpecTok::Group(Delimiter::Brace, bodyv),
    ]);
    append_toks(&mut db, &d3);
    assert(toks_view(db@) =~= spec_ffi_decode_body(vv));
    impl_block(&dig, &dpath, e, tg, wc, db)
}

fn ffi_out_ptr(e: &str, vs: &Vec<FfiVariant>, ig: &Vec<Tok>, tg: &Vec<Tok>, preds: &Vec<Tok>) -> (r: Vec<Tok>)
    ensures
        toks_view(r@) == spec_ffi_out_ptr(e@, ffi_variants_view(vs@), toks_view(ig@), toks_view(tg@), toks_view(preds@)),
{
    proof {
        reveal_strlit("for");
        reveal_strlit("unsafe");
    }
    let singles = single_types(vs);
    let ghost sv = lists_view(singles@);
    let nl = path3("co3", "out_ptr", "NonLocal");
    let mut head = vec![ident("for"), Tok::Punct('<', false)];
    assert(toks_view(head@) =~= seq![SpecTok::Ident("for"@), SpecTok::Punct('<', false)]);
    append_toks(&mut head, &lifetime("_dummy"));
    let gt = vec![Tok::Punct('>', false)];
    assert(toks_view(gt@) =~= seq![SpecTok::Punct('>', false)]);
    append_toks(&mut head, &gt);
    let ghost hv = toks_view(head@);
    let cl = vec![Tok::Punct(':', false)];
    assert(toks_view(cl@) =~= seq![SpecTok::Punct(':', false)]);
    let mut bounds: Vec<Vec<Tok>> = Vec::new();
    let mut i: usize = 0;
    while i < singles.len()
        invariant
            i <= singles@.len(),
            sv == lists_view(singles@),
            hv == toks_view(head@),
            hv == seq![SpecTok::Ident("for"@), SpecTok::Punct('<', false)] + spec_lifetime("_dummy"@) + seq![SpecTok::Punct('>', false)],
            toks_view(cl@) == seq![SpecTok::Punct(':', false)],
            toks_view(nl@) == spec_path3("co3"@, "out_ptr"@, "NonLocal"@),
            bounds@.len() == i,
            forall|j: int|
                0 <= j < i ==> toks_view((#[trigger] bounds@[j])@) == hv + sv[j] + seq![SpecTok::Punct(':', false)]
                    + spec_path3("co3"@, "out_ptr"@, "NonLocal"@),
        decreases singles@.len() - i,
    {
        let mut x: Vec<Tok> = Vec::new();
        assert(toks_view(x@) =~= Seq::<SpecTok>::empty());
        append_toks(&mut x, &head);
        assert(toks_view(singles@[i as int]@) == sv[i as int]);
        append_toks(&mut x, &singles[i]);
        append_toks(&mut x, &cl);
        append_toks(&mut x, &nl);
        assert(toks_view(x@) =~= hv + sv[i as int] + seq![SpecTok::Punct(':', false)] + spec_path3("co3"@, "out_ptr"@, "NonLocal"@));
        bounds.push(x);
        i = i + 1;
    }
    assert(lists_view(bounds@) =~= Seq::new(
        sv.len(),
        |i: int|
            seq![SpecTok::Ident("for"@), SpecTok::Punct('<', false)] + spec_lifetime("_dummy"@) + seq![SpecTok::Punct('>', false)]
                + sv[i] + seq![SpecTok::Punct(':', false)] + spec_path3("co3"@, "out_ptr"@, "NonLocal"@),
    ));
    let nlw = extended_where(preds, &bounds);
    let mut out = vec![ident("unsafe")];
    assert(toks_view(out@) =~= seq![SpecTok::Ident("unsafe"@)]);
    let e3: Vec<Tok> = Vec::new();
    assert(toks_view(e3@) =~= Seq::<SpecTok>::empty());
    append_toks(&mut out, &impl_block(ig, &nl, e, tg, &nlw, e3));
    append_toks(&mut out, &impl_block(ig, &path3("co3", "out_ptr", "OutPtr"), e, tg, &nlw, out_ptr_body1()));
    append_toks(&mut out, &impl_block(ig, &path3("co3", "out_ptr", "OutPtrWrite"), e, tg, &nlw, out_ptr_body2()));
    append_toks(&mut out, &impl_block(ig, &path3("co3", "out_ptr", "OutPtrRead"), e, tg, &nlw, result_read_body()));
    out
}

#[verifier::rlimit(60)]
/// What an enum with data and without a `#[repr]` derives (see
/// `spec_ffi_data_enum`), from its name, its variants, the parts of its
/// generics as `split_for_impl` gives them (the where clause made present
/// and as declared, and its predicates), its parameter list, and whether it
/// is local; beside the tokens, the positions of the variants whose shape is
/// not supported, which are reported and treated as variants without fields.
pub fn derive_ffi_type_for_no_repr_data_carrying_enum(
    e: &str,
    vs: &Vec<FfiVariant>,
    impl_generics: &Vec<Tok>,
    ty_generics: &Vec<Tok>,
    where_clause: &Vec<Tok>,
    declared_where_clause: &Vec<Tok>,
    params: &Vec<Tok>,
    predicates: &Vec<Tok>,
    local: bool,
) -> (r: (Vec<Tok>, Vec<usize>))
    ensures
        toks_view(r.0@) == spec_ffi_data_enum(
            e@,
            ffi_variants_view(vs@),
            toks_view(impl_generics@),
            toks_view(ty_generics@),
            toks_view(where_clause@),
            toks_view(declared_where_clause@),
            toks_view(params@),
            toks_view(predicates@),
            local,
        ),
        r.1@ == spec_unsupported(ffi_variants_view(vs@), vs@.len() as int),
{
    proof {
        reveal_strlit("Self");
        reveal_strlit("type");
        reveal_strlit("CType");
    }
    let ig = impl_generics;
    let tg = ty_generics;
    let wc = where_clause;
    let c = reprc_name(e);
    let mut out = reprc_enum(e, vs, ig, tg, declared_where_clause, params, predicates);
    let e1: Vec<Tok> = Vec::new();
    assert(toks_view(e1@) =~= Seq::<SpecTok>::empty());
    append_toks(&mut out, &impl_block(ig, &path3("co3", "ir", "Cloned"), e, tg, wc, e1));
    let selfp = vec![ident("Self")];
    assert(toks_view(selfp@) =~= seq![SpecTok::Ident("Self"@)]);
    append_toks(&mut out, &impl_block(ig, &path3("co3", "ir", "Ir"), e, tg, wc, type_item(selfp)));
    append_toks(&mut out, &ffi_enum_niche(e, vs, ig, tg, wc, predicates));
    let mut ct = vec![ident("type"), ident("CType"), Tok::Punct('=', false), Tok::Ident(c)];
    assert(toks_view(ct@) =~= seq![SpecTok::Ident("type"@), SpecTok::Ident("CType"@), SpecTok::Punct('=', false), SpecTok::Ident(spec_reprc_name(e@))]);
    append_toks(&mut ct, tg);
    let semi = vec![Tok::Punct(';', false)];
    assert(toks_view(semi@) =~= seq![SpecTok::Punct(';', false)]);
    append_toks(&mut ct, &semi);
    append_toks(&mut out, &impl_block(ig, &path2("co3", "ExternC"), e, tg, wc, ct));
    append_toks(&mut out, &ffi_encode(e, vs, ig, tg, wc));
    append_toks(&mut out, &ffi_decode(e, vs, tg, wc, params));
    if !local {
        append_toks(&mut out, &ffi_out_ptr(e, vs, ig, tg, predicates));
    } else {
        let ghost o = toks_view(out@);
        assert(o + Seq::<SpecTok>::empty() =~= o);
    }
    (out, unsupported_variants(vs))
}

/// What a `#[repr(C)]` enum derives: its `ReprC` equivalent, and that the
/// enum is `Transparent` over that equivalent (given as the equivalent's
/// whole definition) and valid where the tag is at most the number of
/// variants.
pub open spec fn spec_repr_c_enum_item(
    e: Seq<char>,
    vs: Seq<SpecFfiVariant>,
    ig: Seq<SpecTok>,
    tg: Seq<SpecTok>,
    wc: Seq<SpecTok>,
    params: Seq<SpecTok>,
    preds: Seq<SpecTok>,
) -> Seq<SpecTok> {
    let reprc = spec_reprc_enum(e, vs, ig, tg, wc, params, preds);
    reprc + crate::derive_items::spec_mineral_impl(
        Seq::empty(),
        "Transparent"@,
        e,
        params,
        tg,
        preds,
        seq![SpecTok::Ident("type"@), SpecTok::Ident("Target"@), SpecTok::Punct('=', false)] + reprc + seq![
            SpecTok::Punct(';', false),
        ] + crate::derive_items::spec_is_valid_fn(
            seq![
                SpecTok::Ident("target"@),
                SpecTok::Punct('.', false),
                SpecTok::Ident("tag"@),
                SpecTok::Punct('<', true),
                SpecTok::Punct('=', false),
                SpecTok::Literal(spec_decimal(vs.len())),
            ],
        ),
    )
}

/// What a `#[repr(C)]` enum derives (see `spec_repr_c_enum_item`), from its
/// name, variants, the parts of its generics as `split_for_impl` gives them,
/// its parameters and where predicates; beside the tokens, the positions of
/// the variants whose shape is not supported.
pub fn derive_ffi_type_for_repr_c_enum(
    e: &str,
    vs: &Vec<FfiVariant>,
    ig: &Vec<Tok>,
    tg: &Vec<Tok>,
    wc: &Vec<Tok>,
    params: &Vec<Tok>,
    preds: &Vec<Tok>,
) -> (r: (Vec<Tok>, Vec<usize>))
    ensures
        toks_view(r.0@) == spec_repr_c_enum_item(
            e@,
            ffi_variants_view(vs@),
            toks_view(ig@),
            toks_view(tg@),
            toks_view(wc@),
            toks_view(params@),
            toks_view(preds@),
        ),
        r.1@ == spec_unsupported(ffi_variants_view(vs@), vs@.len() as int),
{
    proof {
        reveal_strlit("type");
        reveal_strlit("Target");
        reveal_strlit("target");
        reveal_strlit("tag");
    }
    let reprc = reprc_enum(e, vs, ig, tg, wc, params, preds);
    let mut body = vec![ident("type"), ident("Target"), Tok::Punct('=', false)];
    assert(toks_view(body@) =~= seq![SpecTok::Ident("type"@), SpecTok::Ident("Target"@), SpecTok::Punct('=', false)]);
    append_toks(&mut body, &reprc);
    let s = vec![Tok::Punct(';', false)];
    assert(toks_view(s@) =~= seq![SpecTok::Punct(';', false)]);
    append_toks(&mut body, &s);
    let check = vec![
        ident("target"),
        Tok::Punct('.', false),
        ident("tag"),
        Tok::Punct('<', true),
        Tok::Punct('=', false),
        lit(vs.len()),
    ];
    assert(toks_view(check@) =~= seq![
        SpecTok::Ident("target"@),
        SpecTok::Punct('.', false),
        SpecTok::Ident("tag"@),
        SpecTok::Punct('<', true),
        SpecTok::Punct('=', false),
        SpecTok::Literal(spec_decimal(vs@.len())),
    ]);
    append_toks(&mut body, &crate::derive_items::is_valid_fn(check));
    let head: Vec<Tok> = Vec::new();
    assert(toks_view(head@) =~= Seq::<SpecTok>::empty());
    let mut out = reprc;
    append_toks(&mut out, &crate::derive_items::mineral_impl(head, "Transparent", e, params, tg, preds, body));
    (out, unsupported_variants(vs))
}


/// The stores of a variant with one field of type `t`: on the Rust side the
/// type's `co3::Encode` store, on the foreign side its `co3::Decode<'_dšč>`
/// store; a variant without data has `()` on both.
pub proof fn lemma_variant_stores(t: Seq<SpecTok>, v: SpecFfiVariant)
    ensures
        v.field == Some(t) ==> spec_variant_rust_store(v) == seq![SpecTok::Punct('<', false)] + t + seq![
            SpecTok::Ident("as"@),
            SpecTok::Ident("co3"@),
            SpecTok::Punct(':', true),
            SpecTok::Punct(':', false),
            SpecTok::Ident("Encode"@),
            SpecTok::Punct('>', false),
            SpecTok::Punct(':', true),
            SpecTok::Punct(':', false),
            SpecTok::Ident("Store"@),
        ],
        v.field == Some(t) ==> spec_variant_ffi_store(v) == seq![SpecTok::Punct('<', false)] + t + seq![
            SpecTok::Ident("as"@),
            SpecTok::Ident("co3"@),
            SpecTok::Punct(':', true),
            SpecTok::Punct(':', false),
            SpecTok::Ident("Decode"@),
            SpecTok::Punct('<', false),
            SpecTok::Punct('\'', true),
            SpecTok::Ident("_dšč"@),
            SpecTok::Punct('>', false),
            SpecTok::Punct('>', false),
            SpecTok::Punct(':', true),
            SpecTok::Punct(':', false),
            SpecTok::Ident("Store"@),
        ],
        v.field is None ==> spec_variant_rust_store(v) == seq![SpecTok::Group(Delimiter::Parenthesis, Seq::<SpecTok>::empty())]
            && spec_variant_ffi_store(v) == seq![SpecTok::Group(Delimiter::Parenthesis, Seq::<SpecTok>::empty())],
{
    if v.field == Some(t) {
        assert(spec_variant_rust_store(v) =~= seq![SpecTok::Punct('<', false)] + t + seq![
            SpecTok::Ident("as"@),
            SpecTok::Ident("co3"@),
            SpecTok::Punct(':', true),
            SpecTok::Punct(':', false),
            SpecTok::Ident("Encode"@),
            SpecTok::Punct('>', false),
            SpecTok::Punct(':', true),
            SpecTok::Punct(':', false),
            SpecTok::Ident("Store"@),
        ]);
        assert(spec_variant_ffi_store(v) =~= seq![SpecTok::Punct('<', false)] + t + seq![
            SpecTok::Ident("as"@),
            SpecTok::Ident("co3"@),
            SpecTok::Punct(':', true),
            SpecTok::Punct(':', false),
            SpecTok::Ident("Decode"@),
            SpecTok::Punct('<', false),
            SpecTok::Punct('\'', true),
            SpecTok::Ident("_dšč"@),
            SpecTok::Punct('>', false),
            SpecTok::Punct('>', false),
            SpecTok::Punct(':', true),
            SpecTok::Punct(':', false),
            SpecTok::Ident("Store"@),
        ]);
    }
}

} // verus!
