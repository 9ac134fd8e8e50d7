//! What an opaque type, a `#[repr(transparent)]` type, a `#[repr(C)]`
//! struct and a fieldless enum with a primitive `#[repr]` derive for the
//! foreign boundary.
use vstd::prelude::*;
use crate::codegen::{ident, impl_block, path2, path3, spec_impl_block, spec_path2, spec_path3};
use crate::preprocess::append_toks;
use crate::struct_codegen::{spec_type_item, type_item};
use crate::tokens::{Delimiter, SpecTok, Tok, toks_view};
use crate::dispatch::all_ascii;
use crate::repr::{ReprPrimitive, spec_primitive_name};
use crate::text::{decimal, push_str, spec_decimal, string_of};

verus! {

/// `const NICHE_VALUE: *mut Self = core::ptr::null_mut();`
pub open spec fn spec_null_niche() -> Seq<SpecTok> {
    seq![
        SpecTok::Ident("const"@),
        SpecTok::Ident("NICHE_VALUE"@),
        SpecTok::Punct(':', false),
        SpecTok::Punct('*', false),
        SpecTok::Ident("mut"@),
        SpecTok::Ident("Self"@),
        SpecTok::Punct('=', false),
    ] + spec_path3("core"@, "ptr"@, "null_mut"@) + seq![
        SpecTok::Group(Delimiter::Parenthesis, Seq::empty()),
        SpecTok::Punct(';', false),
    ]
}

/// What an opaque type derives: its representation is `Opaque`, its niche
/// family has a custom niche, and that niche is the null pointer.
pub open spec fn spec_opaque_ffi_item(name: Seq<char>, ig: Seq<SpecTok>, tg: Seq<SpecTok>, wc: Seq<SpecTok>) -> Seq<SpecTok> {
    spec_impl_block(ig, spec_path3("co3"@, "ir"@, "Ir"@), name, tg, wc, spec_type_item(spec_path3("co3"@, "ir"@, "Opaque"@)))
        + spec_impl_block(
        ig,
        spec_path3("co3"@, "niche"@, "Ir"@),
        name,
        tg,
        wc,
        spec_type_item(spec_path3("co3"@, "niche"@, "WithCustomNiche"@)),
    ) + spec_impl_block(ig, spec_path3("co3"@, "niche"@, "Niche"@), name, tg, wc, spec_null_niche())
}

/// `co3::mineral! { head (params) trait_name for name tg where (preds) { body } }`
pub open spec fn spec_mineral_impl(
    head: Seq<SpecTok>,
    trait_name: Seq<char>,
    name: Seq<char>,
    params: Seq<SpecTok>,
    tg: Seq<SpecTok>,
    preds: Seq<SpecTok>,
    body: Seq<SpecTok>,
) -> Seq<SpecTok> {
    spec_path2("co3"@, "mineral"@) + seq![
        SpecTok::Punct('!', false),
        SpecTok::Group(
            Delimiter::Brace,
            head + seq![
                SpecTok::Ident("impl"@),
                SpecTok::Group(Delimiter::Parenthesis, params),
                SpecTok::Ident(trait_name),
                SpecTok::Ident("for"@),
                SpecTok::Ident(name),
            ] + tg + seq![
                SpecTok::Ident("where"@),
                SpecTok::Group(Delimiter::Parenthesis, preds),
                SpecTok::Group(Delimiter::Brace, body),
            ],
        ),
    ]
}

/// `fn is_valid(target: &Self::Target) -> bool { body }`
pub open spec fn spec_is_valid_fn(body: Seq<SpecTok>) -> Seq<SpecTok> {
    seq![
        SpecTok::Ident("fn"@),
        SpecTok::Ident("is_valid"@),
        SpecTok::Group(
            Delimiter::Parenthesis,
            seq![
                SpecTok::Ident("target"@),
                SpecTok::Punct(':', false),
                SpecTok::Punct('&', false),
                SpecTok::Ident("Self"@),
                SpecTok::Punct(':', true),
                SpecTok::Punct(':', false),
                SpecTok::Ident("Target"@),
            ],
        ),
        SpecTok::Punct('-', true),
        SpecTok::Punct('>', false),
        SpecTok::Ident("bool"@),
        SpecTok::Group(Delimiter::Brace, body),
    ]
}

/// What `#[mineral(transparent(..))]` adds: the niche value where it names
/// one, and validation by its closure.
pub open spec fn spec_custom_validation(niche: Option<Seq<SpecTok>>, is_valid: Seq<SpecTok>) -> Seq<SpecTok> {
    (match niche {
        Some(v) => seq![
            SpecTok::Ident("const"@),
            SpecTok::Ident("NICHE_VALUE"@),
            SpecTok::Punct(':', false),
            SpecTok::Punct('<', false),
            SpecTok::Ident("Self"@),
            SpecTok::Ident("as"@),
        ] + spec_path2("co3"@, "ExternC"@) + seq![
            SpecTok::Punct('>', false),
            SpecTok::Punct(':', true),
            SpecTok::Punct(':', false),
            SpecTok::Ident("CType"@),
            SpecTok::Punct('=', false),
        ] + v + seq![SpecTok::Punct(';', false)],
        None => Seq::empty(),
    }) + spec_is_valid_fn(
        seq![
            SpecTok::Group(Delimiter::Parenthesis, is_valid),
            SpecTok::Group(Delimiter::Parenthesis, seq![SpecTok::Ident("target"@)]),
        ],
    )
}

/// What a `#[repr(transparent)]` type derives: nothing where it has no
/// field to be transparent over (`target`, the first field's type);
/// otherwise it is declared `Transparent` over that type, with the niche and
/// validation that `#[mineral(transparent(..))]` gives (`custom`).
pub open spec fn spec_transparent_item(
    name: Seq<char>,
    params: Seq<SpecTok>,
    tg: Seq<SpecTok>,
    preds: Seq<SpecTok>,
    target: Option<Seq<SpecTok>>,
    custom: Option<(Option<Seq<SpecTok>>, Seq<SpecTok>)>,
) -> Seq<SpecTok> {
    match target {
        None => Seq::empty(),
        Some(t) => spec_mineral_impl(
            seq![SpecTok::Ident("unsafe"@)],
            "Transparent"@,
            name,
            params,
            tg,
            preds,
            seq![SpecTok::Ident("type"@), SpecTok::Ident("Target"@), SpecTok::Punct('=', false)] + t + seq![
                SpecTok::Punct(';', false),
            ] + match custom {
                Some((n, v)) => spec_custom_validation(n, v),
                None => Seq::empty(),
            },
        ),
    }
}

/// What a `#[repr(C)]` struct derives: it is declared `Robust`.
pub open spec fn spec_repr_c_struct_item(name: Seq<char>, params: Seq<SpecTok>, tg: Seq<SpecTok>, preds: Seq<SpecTok>) -> Seq<SpecTok> {
    spec_mineral_impl(Seq::empty(), "Robust"@, name, params, tg, preds, Seq::empty())
}

fn null_niche() -> (r: Vec<Tok>)
    ensures
        toks_view(r@) == spec_null_niche(),
{
    proof {
        reveal_strlit("const");
        reveal_strlit("NICHE_VALUE");
        reveal_strlit("mut");
        reveal_strlit("Self");
    }
    let mut r = vec![
        ident("const"),
        ident("NICHE_VALUE"),
        Tok::Punct(':', false),
        Tok::Punct('*', false),
        ident("mut"),
        ident("Self"),
        Tok::Punct('=', false),
    ];
    assert(toks_view(r@) =~= seq![
        SpecTok::Ident("const"@),
        SpecTok::Ident("NICHE_VALUE"@),
        SpecTok::Punct(':', false),
        SpecTok::Punct('*', false),
        SpecTok::Ident("mut"@),
        SpecTok::Ident("Self"@),
        SpecTok::Punct('=', false),
    ]);
    append_toks(&mut r, &path3("core", "ptr", "null_mut"));
    let e: Vec<Tok> = Vec::new();
    assert(toks_view(e@) =~= Seq::<SpecTok>::empty());
    let t = vec![Tok::Group(Delimiter::Parenthesis, e), Tok::Punct(';', false)];
    assert(toks_view(t@) =~= seq![SpecTok::Group(Delimiter::Parenthesis, Seq::empty()), SpecTok::Punct(';', false)]);
    append_toks(&mut r, &t);
    r
}

/// What an opaque type derives (see `spec_opaque_ffi_item`), from its name
/// and the parts of its generics as `split_for_impl` gives them.
pub fn derive_ffi_type_for_opaque_item(name: &str, ig: &Vec<Tok>, tg: &Vec<Tok>, wc: &Vec<Tok>) -> (r: Vec<Tok>)
    ensures
        toks_view(r@) == spec_opaque_ffi_item(name@, toks_view(ig@), toks_view(tg@), toks_view(wc@)),
{
    let mut out = impl_block(ig, &path3("co3", "ir", "Ir"), name, tg, wc, type_item(path3("co3", "ir", "Opaque")));
    append_toks(&mut out, &impl_block(ig, &path3("co3", "niche", "Ir"), name, tg, wc, type_item(path3("co3", "niche", "WithCustomNiche"))));
    append_toks(&mut out, &impl_block(ig, &path3("co3", "niche", "Niche"), name, tg, wc, null_niche()));
    out
}

pub(crate) fn mineral_impl(
    head: Vec<Tok>,
    trait_name: &str,
    name: &str,
    params: &Vec<Tok>,
    tg: &Vec<Tok>,
    preds: &Vec<Tok>,
    body: Vec<Tok>,
) -> (r: Vec<Tok>)
    ensures
        toks_view(r@) == spec_mineral_impl(toks_view(head@), trait_name@, name@, toks_view(params@), toks_view(tg@), toks_view(preds@), toks_view(body@)),
{
    proof {
        reveal_strlit("impl");
        reveal_strlit("for");
        reveal_strlit("where");
    }
    let mut ps: Vec<Tok> = Vec::new();
    append_toks(&mut ps, params);
    let ghost psv = toks_view(ps@);
    assert(psv =~= toks_view(params@));
    let mut pr: Vec<Tok> = Vec::new();
    append_toks(&mut pr, preds);
    let ghost prv = toks_view(pr@);
    assert(prv =~= toks_view(preds@));
    let ghost bv = toks_view(body@);
    let mut inner = head;
    let ghost h = toks_view(inner@);
    let a = vec![ident("impl"), Tok::Group(Delimiter::Parenthesis, ps), ident(trait_name), ident("for"), ident(name)];
    assert(toks_view(a@) =~= seq![
        SpecTok::Ident("impl"@),
        SpecTok::Group(Delimiter::Parenthesis, psv),
        SpecTok::Ident(trait_name@),
        SpecTok::Ident("for"@),
        SpecTok::Ident(name@),
    ]);
    append_toks(&mut inner, &a);
    append_toks(&mut inner, tg);
    let b = vec![ident("where"), Tok::Group(Delimiter::Parenthesis, pr), Tok::Group(Delimiter::Brace, body)];
    assert(toks_view(b@) =~= seq![
        SpecTok::Ident("where"@),
        SpecTok::Group(Delimiter::Parenthesis, prv),
        SpecTok::Group(Delimiter::Brace, bv),
    ]);
    append_toks(&mut inner, &b);
    let ghost iv = toks_view(inner@);
    let mut out = path2("co3", "mineral");
    let t = vec![Tok::Punct('!', false), Tok::Group(Delimiter::Brace, inner)];
    assert(toks_view(t@) =~= seq![SpecTok::Punct('!', false), SpecTok::Group(Delimiter::Brace, iv)]);
    append_toks(&mut out, &t);
    out
}

pub(crate) fn is_valid_fn(body: Vec<Tok>) -> (r: Vec<Tok>)
    ensures
        toks_view(r@) == spec_is_valid_fn(toks_view(body@)),
{
    proof {
        reveal_strlit("fn");
        reveal_strlit("is_valid");
        reveal_strlit("target");
        reveal_strlit("Self");
        reveal_strlit("Target");
        reveal_strlit("bool");
    }
    let ps = vec![
        ident("target"),
        Tok::Punct(':', false),
        Tok::Punct('&', false),
        ident("Self"),
        Tok::Punct(':', true),
        Tok::Punct(':', false),
        ident("Target"),
    ];
    let ghost psv = seq![
        SpecTok::Ident("target"@),
        SpecTok::Punct(':', false),
        SpecTok::Punct('&', false),
        SpecTok::Ident("Self"@),
        SpecTok::Punct(':', true),
        SpecTok::Punct(':', false),
        SpecTok::Ident("Target"@),
    ];
    assert(toks_view(ps@) =~= psv);
    let ghost bv = toks_view(body@);
    let r = vec![
        ident("fn"),
        ident("is_valid"),
        Tok::Group(Delimiter::Parenthesis, ps),
        Tok::Punct('-', true),
        Tok::Punct('>', false),
        ident("bool"),
        Tok::Group(Delimiter::Brace, body),
    ];
    assert(toks_view(r@) =~= spec_is_valid_fn(bv));
    r
}

fn custom_validation(niche: &Option<Vec<Tok>>, is_valid: &Vec<Tok>) -> (r: Vec<Tok>)
    ensures
        toks_view(r@) == spec_custom_validation(
            match niche {
                Some(v) => Some(toks_view(v@)),
                None => None,
            },
            toks_view(is_valid@),
        ),
{
    proof {
        reveal_strlit("const");
        reveal_strlit("NICHE_VALUE");
        reveal_strlit("Self");
        reveal_strlit("as");
        reveal_strlit("CType");
        reveal_strlit("target");
    }
    let mut out: Vec<Tok> = Vec::new();
    assert(toks_view(out@) =~= Seq::<SpecTok>::empty());
    match niche {
        Some(v) => {
            let a = vec![
                ident("const"),
                ident("NICHE_VALUE"),
                Tok::Punct(':', false),
                Tok::Punct('<', false),
                ident("Self"),
                ident("as"),
            ];
            assert(toks_view(a@) =~= seq![
                SpecTok::Ident("const"@),
                SpecTok::Ident("NICHE_VALUE"@),
                SpecTok::Punct(':', false),
                SpecTok::Punct('<', false),
                SpecTok::Ident("Self"@),
                SpecTok::Ident("as"@),
            ]);
            append_toks(&mut out, &a);
            append_toks(&mut out, &path2("co3", "ExternC"));
            let b = vec![Tok::Punct('>', false), Tok::Punct(':', true), Tok::Punct(':', false), ident("CType"), Tok::Punct('=', false)];
            assert(toks_view(b@) =~= seq![
                SpecTok::Punct('>', false),
                SpecTok::Punct(':', true),
                SpecTok::Punct(':', false),
                SpecTok::Ident("CType"@),
                SpecTok::Punct('=', false),
            ]);
            append_toks(&mut out, &b);
            append_toks(&mut out, v);
            let c = vec![Tok::Punct(';', false)];
            assert(toks_view(c@) =~= seq![SpecTok::Punct(';', false)]);
            append_toks(&mut out, &c);
        },
        None => {},
    }
    let mut iv: Vec<Tok> = Vec::new();
    append_toks(&mut iv, is_valid);
    let ghost ivv = toks_view(iv@);
    assert(ivv =~= toks_view(is_valid@));
    let tv = vec![ident("target")];
    assert(toks_view(tv@) =~= seq![SpecTok::Ident("target"@)]);
    let body = vec![Tok::Group(Delimiter::Parenthesis, iv), Tok::Group(Delimiter::Parenthesis, tv)];
    assert(toks_view(body@) =~= seq![
        SpecTok::Group(Delimiter::Parenthesis, ivv),
        SpecTok::Group(Delimiter::Parenthesis, seq![SpecTok::Ident("target"@)]),
    ]);
    append_toks(&mut out, &is_valid_fn(body));
    out
}

/// What a `#[repr(transparent)]` type derives (see
/// `spec_transparent_item`), from its name, its generic parameters, type
/// generics and where predicates, the type of its first field, if any, and
/// what `#[mineral(transparent(..))]` gives, if it is there.
pub fn derive_ffi_type_for_transparent_item(
    name: &str,
    params: &Vec<Tok>,
    tg: &Vec<Tok>,
    preds: &Vec<Tok>,
    target: Option<&Vec<Tok>>,
    custom: Option<(&Option<Vec<Tok>>, &Vec<Tok>)>,
) -> (r: Vec<Tok>)
    ensures
        toks_view(r@) == spec_transparent_item(
            name@,
            toks_view(params@),
            toks_view(tg@),
            toks_view(preds@),
            match target {
                Some(t) => Some(toks_view(t@)),
                None => None,
            },
            match custom {
                Some((n, v)) => Some(
                    (
                        match n {
                            Some(x) => Some(toks_view(x@)),
                            None => None,
                        },
                        toks_view(v@),
                    ),
                ),
                None => None,
            },
        ),
{
    proof {
        reveal_strlit("unsafe");
        reveal_strlit("type");
        reveal_strlit("Target");
    }
    match target {
        None => {
            let r: Vec<Tok> = Vec::new();
            assert(toks_view(r@) =~= Seq::<SpecTok>::empty());
            r
        },
        Some(t) => {
            let mut body = vec![ident("type"), ident("Target"), Tok::Punct('=', false)];
            assert(toks_view(body@) =~= seq![SpecTok::Ident("type"@), SpecTok::Ident("Target"@), SpecTok::Punct('=', false)]);
            append_toks(&mut body, t);
            let s = vec![Tok::Punct(';', false)];
            assert(toks_view(s@) =~= seq![SpecTok::Punct(';', false)]);
            append_toks(&mut body, &s);
            match custom {
                Some((n, v)) => append_toks(&mut body, &custom_validation(n, v)),
                None => {
                    let ghost b0 = toks_view(body@);
                    assert(b0 + Seq::<SpecTok>::empty() =~= b0);
                },
            }
            let head = vec![ident("unsafe")];
            assert(toks_view(head@) =~= seq![SpecTok::Ident("unsafe"@)]);
            mineral_impl(head, "Transparent", name, params, tg, preds, body)
        },
    }
}

/// What a `#[repr(C)]` struct derives (see `spec_repr_c_struct_item`).
pub fn derive_ffi_type_for_repr_c_struct(name: &str, params: &Vec<Tok>, tg: &Vec<Tok>, preds: &Vec<Tok>) -> (r: Vec<Tok>)
    ensures
        toks_view(r@) == spec_repr_c_struct_item(name@, toks_view(params@), toks_view(tg@), toks_view(preds@)),
{
    let head: Vec<Tok> = Vec::new();
    assert(toks_view(head@) =~= Seq::<SpecTok>::empty());
    let body: Vec<Tok> = Vec::new();
    assert(toks_view(body@) =~= Seq::<SpecTok>::empty());
    mineral_impl(head, "Robust", name, params, tg, preds, body)
}

/// The ASCII uppercase of a character.
pub open spec fn ascii_upper(c: char) -> char {
    if 'a' <= c && c <= 'z' {
        ((c as u32) - 32) as char
    } else {
        c
    }
}

/// The Unicode uppercase of a string, as `str::to_uppercase` gives it.
pub uninterp spec fn str_uppercase(s: Seq<char>) -> Seq<char>;

/// Calls `str::to_uppercase`: the string's Unicode uppercase, a function of
/// the string alone; for ASCII text its documentation gives the ASCII
/// uppercase, character for character.
#[verifier::external_body]
fn std_to_uppercase(s: &str) -> (r: String)
    ensures
        r@ == str_uppercase(s@),
        all_ascii(s@) ==> r@ == s@.map_values(|c: char| ascii_upper(c)),
{
    s.to_uppercase()
}

/// The name of a variant's discriminant constant: `ENUM__VARIANT`.
pub open spec fn spec_discriminant_name(e: Seq<char>, v: Seq<char>) -> Seq<char> {
    str_uppercase(e + "__"@ + v)
}

/// `const NAME: tag = i;` for the first `n` variants.
pub open spec fn spec_discriminant_decls(e: Seq<char>, vs: Seq<Seq<char>>, tag: Seq<char>, n: int) -> Seq<SpecTok>
    decreases n,
{
    if n <= 0 || n > vs.len() {
        Seq::empty()
    } else {
        spec_discriminant_decls(e, vs, tag, n - 1) + seq![
            SpecTok::Ident("const"@),
            SpecTok::Ident(spec_discriminant_name(e, vs[n - 1])),
            SpecTok::Punct(':', false),
            SpecTok::Ident(tag),
            SpecTok::Punct('=', false),
            SpecTok::Literal(spec_decimal((n - 1) as nat)),
            SpecTok::Punct(';', false),
        ]
    }
}

/// `| NAME` for the first `n` variants.
pub open spec fn spec_discriminant_alts(e: Seq<char>, vs: Seq<Seq<char>>, n: int) -> Seq<SpecTok>
    decreases n,
{
    if n <= 0 || n > vs.len() {
        Seq::empty()
    } else {
        spec_discriminant_alts(e, vs, n - 1) + seq![
            SpecTok::Punct('|', false),
            SpecTok::Ident(spec_discriminant_name(e, vs[n - 1])),
        ]
    }
}

/// `<Self as co3::ExternC>::CType`
pub open spec fn spec_self_ctype() -> Seq<SpecTok> {
    seq![SpecTok::Punct('<', false), SpecTok::Ident("Self"@), SpecTok::Ident("as"@)] + spec_path2("co3"@, "ExternC"@) + seq![
        SpecTok::Punct('>', false),
        SpecTok::Punct(':', true),
        SpecTok::Punct(':', false),
        SpecTok::Ident("CType"@),
    ]
}

/// What a fieldless enum with a primitive `#[repr]` derives: it is
/// `Transparent` over that primitive, its niche is the number of variants,
/// and a value is valid where it is one of the variants' discriminants
/// (`0`, `1`, ... in order).
pub open spec fn spec_fieldless_enum(repr: ReprPrimitive, e: Seq<char>, vs: Seq<Seq<char>>) -> Seq<SpecTok> {
    let tag = spec_primitive_name(repr);
    let check = if vs.len() == 0 {
        seq![SpecTok::Ident("false"@)]
    } else {
        seq![
            SpecTok::Ident("match"@),
            SpecTok::Punct('*', false),
            SpecTok::Ident("target"@),
            SpecTok::Group(
                Delimiter::Brace,
                spec_discriminant_alts(e, vs, vs.len() as int) + seq![
                    SpecTok::Punct('=', true),
                    SpecTok::Punct('>', false),
                    SpecTok::Ident("true"@),
                    SpecTok::Punct(',', false),
                    SpecTok::Ident("_"@),
                    SpecTok::Punct('=', true),
                    SpecTok::Punct('>', false),
                    SpecTok::Ident("false"@),
                    SpecTok::Punct(',', false),
                ],
            ),
        ]
    };
    spec_path2("co3"@, "mineral"@) + seq![
        SpecTok::Punct('!', false),
        SpecTok::Group(
            Delimiter::Brace,
            seq![
                SpecTok::Ident("unsafe"@),
                SpecTok::Ident("impl"@),
                SpecTok::Ident("Transparent"@),
                SpecTok::Ident("for"@),
                SpecTok::Ident(e),
                SpecTok::Group(
                    Delimiter::Brace,
                    seq![
                        SpecTok::Ident("type"@),
                        SpecTok::Ident("Target"@),
                        SpecTok::Punct('=', false),
                        SpecTok::Ident(tag),
                        SpecTok::Punct(';', false),
                        SpecTok::Ident("const"@),
                        SpecTok::Ident("NICHE_VALUE"@),
                        SpecTok::Punct(':', false),
                    ] + spec_self_ctype() + seq![
                        SpecTok::Punct('=', false),
                        SpecTok::Literal(spec_decimal(vs.len()) + "usize"@),
                        SpecTok::Ident("as"@),
                    ] + spec_self_ctype() + seq![SpecTok::Punct(';', false)] + spec_is_valid_fn(
                        spec_discriminant_decls(e, vs, tag, vs.len() as int) + check,
                    ),
                ),
            ],
        ),
    ]
}

fn primitive_name(p: ReprPrimitive) -> (r: &'static str)
    ensures
        r@ == spec_primitive_name(p),
{
    proof {
        reveal_strlit("u8");
        reveal_strlit("i8");
        reveal_strlit("u16");
        reveal_strlit("i16");
        reveal_strlit("u32");
        reveal_strlit("i32");
        reveal_strlit("i64");
        reveal_strlit("u64");
    }
    match p {
        ReprPrimitive::U8 => "u8",
        ReprPrimitive::I8 => "i8",
        ReprPrimitive::U16 => "u16",
        ReprPrimitive::I16 => "i16",
        ReprPrimitive::U32 => "u32",
        ReprPrimitive::I32 => "i32",
        ReprPrimitive::I64 => "i64",
        ReprPrimitive::U64 => "u64",
    }
}

fn discriminant_name(e: &str, v: &str) -> (r: String)
    ensures
        r@ == spec_discriminant_name(e@, v@),
{
    let mut cs: Vec<char> = Vec::new();
    push_str(&mut cs, e);
    push_str(&mut cs, "__");
    push_str(&mut cs, v);
    let joined = string_of(&cs);
    proof {
        assert(joined@ =~= e@ + "__"@ + v@);
    }
    std_to_uppercase(joined.as_str())
}

fn self_ctype() -> (r: Vec<Tok>)
    ensures
        toks_view(r@) == spec_self_ctype(),
{
    proof {
        reveal_strlit("Self");
        reveal_strlit("as");
        reveal_strlit("CType");
    }
    let mut r = vec![Tok::Punct('<', false), ident("Self"), ident("as")];
    assert(toks_view(r@) =~= seq![SpecTok::Punct('<', false), SpecTok::Ident("Self"@), SpecTok::Ident("as"@)]);
    append_toks(&mut r, &path2("co3", "ExternC"));
    let t = vec![Tok::Punct('>', false), Tok::Punct(':', true), Tok::Punct(':', false), ident("CType")];
    assert(toks_view(t@) =~= seq![SpecTok::Punct('>', false), SpecTok::Punct(':', true), SpecTok::Punct(':', false), SpecTok::Ident("CType"@)]);
    append_toks(&mut r, &t);
    r
}

/// The values of a sequence of names.
pub open spec fn names_of(s: Seq<String>) -> Seq<Seq<char>> {
    Seq::new(s.len(), |i: int| s[i]@)
}

/// What a fieldless enum with a primitive `#[repr]` derives (see
/// `spec_fieldless_enum`), from its repr, its name and its variants' names.
pub fn derive_ffi_type_for_fieldless_enum(repr: ReprPrimitive, e: &str, variants: &Vec<String>) -> (r: Vec<Tok>)
    ensures
        toks_view(r@) == spec_fieldless_enum(repr, e@, names_of(variants@)),
{
    proof {
        reveal_strlit("const");
        reveal_strlit("match");
        reveal_strlit("target");
        reveal_strlit("true");
        reveal_strlit("false");
        reveal_strlit("_");
        reveal_strlit("unsafe");
        reveal_strlit("impl");
        reveal_strlit("Transparent");
        reveal_strlit("for");
        reveal_strlit("type");
        reveal_strlit("Target");
        reveal_strlit("NICHE_VALUE");
        reveal_strlit("as");
        reveal_strlit("usize");
    }
    let ghost vs = names_of(variants@);
    let tag = primitive_name(repr);
    let mut decls: Vec<Tok> = Vec::new();
    let mut alts: Vec<Tok> = Vec::new();
    assert(toks_view(decls@) =~= Seq::<SpecTok>::empty());
    assert(toks_view(alts@) =~= Seq::<SpecTok>::empty());
    let mut i: usize = 0;
    while i < variants.len()
        invariant
            i <= variants@.len(),
            vs == names_of(variants@),
            tag@ == spec_primitive_name(repr),
            toks_view(decls@) == spec_discriminant_decls(e@, vs, tag@, i as int),
            toks_view(alts@) == spec_discriminant_alts(e@, vs, i as int),
        decreases variants@.len() - i,
    {
        let d = discriminant_name(e, variants[i].as_str());
        let dd = vec![
            ident("const"),
            Tok::Ident(d.clone()),
            Tok::Punct(':', false),
            ident(tag),
            Tok::Punct('=', false),
            Tok::Literal(string_of(&decimal(i))),
            Tok::Punct(';', false),
        ];
        assert(toks_view(dd@) =~= seq![
            SpecTok::Ident("const"@),
            SpecTok::Ident(spec_discriminant_name(e@, vs[i as int])),
            SpecTok::Punct(':', false),
            SpecTok::Ident(tag@),
            SpecTok::Punct('=', false),
            SpecTok::Literal(spec_decimal(i as nat)),
            SpecTok::Punct(';', false),
        ]);
        append_toks(&mut decls, &dd);
        let aa = vec![Tok::Punct('|', false), Tok::Ident(d)];
        assert(toks_view(aa@) =~= seq![SpecTok::Punct('|', false), SpecTok::Ident(spec_discriminant_name(e@, vs[i as int]))]);
        append_toks(&mut alts, &aa);
        i = i + 1;
    }
    let mut body = decls;
    if variants.len() == 0 {
        let f = vec![ident("false")];
        assert(toks_view(f@) =~= seq![SpecTok::Ident("false"@)]);
        append_toks(&mut body, &f);
    } else {
        let tail = vec![
            Tok::Punct('=', true),
            Tok::Punct('>', false),
            ident("true"),
            Tok::Punct(',', false),
            ident("_"),
            Tok::Punct('=', true),
            Tok::Punct('>', false),
            ident("false"),
            Tok::Punct(',', false),
        ];
        assert(toks_view(tail@) =~= seq![
            SpecTok::Punct('=', true),
            SpecTok::Punct('>', false),
            SpecTok::Ident("true"@),
            SpecTok::Punct(',', false),
            SpecTok::Ident("_"@),
            SpecTok::Punct('=', true),
            SpecTok::Punct('>', false),
            SpecTok::Ident("false"@),
            SpecTok::Punct(',', false),
        ]);
        append_toks(&mut alts, &tail);
        let ghost av = toks_view(alts@);
        let m = vec![ident("match"), Tok::Punct('*', false), ident("target"), Tok::Group(Delimiter::Brace, alts)];
        assert(toks_view(m@) =~= seq![
            SpecTok::Ident("match"@),
            SpecTok::Punct('*', false),
            SpecTok::Ident("target"@),
            SpecTok::Group(Delimiter::Brace, av),
        ]);
        append_toks(&mut body, &m);
    }
    let mut lv: Vec<char> = decimal(variants.len());
    push_str(&mut lv, "usize");
    let len_lit = string_of(&lv);
    proof {
        assert(len_lit@ =~= spec_decimal(vs.len()) + "usize"@);
    }
    let mut items = vec![ident("type"), ident("Target"), Tok::Punct('=', false), ident(tag), Tok::Punct(';', false), ident("const"), ident("NICHE_VALUE"), Tok::Punct(':', false)];
    assert(toks_view(items@) =~= seq![
        SpecTok::Ident("type"@),
        SpecTok::Ident("Target"@),
        SpecTok::Punct('=', false),
        SpecTok::Ident(tag@),
        SpecTok::Punct(';', false),
        SpecTok::Ident("const"@),
        SpecTok::Ident("NICHE_VALUE"@),
        SpecTok::Punct(':', false),
    ]);
    append_toks(&mut items, &self_ctype());
    let mid = vec![Tok::Punct('=', false), Tok::Literal(len_lit), ident("as")];
    assert(toks_view(mid@) =~= seq![
        SpecTok::Punct('=', false),
        SpecTok::Literal(spec_decimal(vs.len()) + "usize"@),
        SpecTok::Ident("as"@),
    ]);
    append_toks(&mut items, &mid);
    append_toks(&mut items, &self_ctype());
    let semi = vec![Tok::Punct(';', false)];
    assert(toks_view(semi@) =~= seq![SpecTok::Punct(';', false)]);
    append_toks(&mut items, &semi);
    append_toks(&mut items, &is_valid_fn(body));
    let ghost itv = toks_view(items@);
    let inner = vec![ident("unsafe"), ident("impl"), ident("Transparent"), ident("for"), ident(e), Tok::Group(Delimiter::Brace, items)];
    assert(toks_view(inner@) =~= seq![
        SpecTok::Ident("unsafe"@),
        SpecTok::Ident("impl"@),
        SpecTok::Ident("Transparent"@),
        SpecTok::Ident("for"@),
        SpecTok::Ident(e@),
        SpecTok::Group(Delimiter::Brace, itv),
    ]);
    let ghost inv = toks_view(inner@);
    let mut out = path2("co3", "mineral");
    let t = vec![Tok::Punct('!', false), Tok::Group(Delimiter::Brace, inner)];
    assert(toks_view(t@) =~= seq![SpecTok::Punct('!', false), SpecTok::Group(Delimiter::Brace, inv)]);
    append_toks(&mut out, &t);
    out
}

} // verus!
