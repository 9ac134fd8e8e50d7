//! What a struct without a `#[repr]` derives: its `ReprC` equivalent, its
//! representation and niche, its encoding and decoding field by field, and,
//! where it is not local, its out-pointer impls.
use vstd::prelude::*;
use crate::codegen::{
    spec_each_with_comma, gen_store_types, ident, impl_block, lists_view, out_ptr_body1, out_ptr_body2, out_ptr_body3, path2,
    path3, spec_impl_block, spec_out_ptr_body1, spec_out_ptr_body2, spec_out_ptr_body3, spec_path2,
    spec_path3, spec_store_types,
};
use crate::enum_codegen::{spec_arrow, spec_lifetime, spec_self_c_type};
use crate::layout::{c_type_tokens, spec_c_type_tokens};
use crate::preprocess::append_toks;
use crate::repr_c::{spec_attr, spec_str_lit};
use crate::text::{decimal, spec_decimal, string_of};
use crate::tokens::{Delimiter, SpecTok, Tok, toks_view};

verus! {

/// How a struct's fields are written: named, positional, or none.
#[derive(Debug, Clone, Copy, PartialEq, Eq, Structural)]
pub enum FieldStyle {
    Named,
    Tuple,
    Unit,
}

/// A field of a struct: its name (for named fields) and the tokens of its
/// type.
#[derive(Debug, PartialEq, Eq)]
pub struct StructField {
    pub name: Option<String>,
    pub ty: Vec<Tok>,
}

/// The value of a field.
pub struct SpecField {
    pub name: Option<Seq<char>>,
    pub ty: Seq<SpecTok>,
}

impl View for StructField {
    type V = SpecField;

    open spec fn view(&self) -> SpecField {
        SpecField {
            name: match self.name {
                Some(n) => Some(n@),
                None => None,
            },
            ty: toks_view(self.ty@),
        }
    }
}

/// The values of a sequence of fields.
pub open spec fn fields_view(s: Seq<StructField>) -> Seq<SpecField> {
    Seq::new(s.len(), |i: int| s[i]@)
}

/// The name of the `ReprC` equivalent of `name`: `__co3__ReprC{name}`.
pub open spec fn spec_reprc_name(name: Seq<char>) -> Seq<char> {
    "__co3__ReprC"@ + name
}

/// The name of the `ReprC` equivalent of `name`.
pub fn reprc_name(name: &str) -> (r: String)
    ensures
        r@ == spec_reprc_name(name@),
{
    let mut v: Vec<char> = Vec::new();
    crate::text::push_str(&mut v, "__co3__ReprC");
    crate::text::push_str(&mut v, name);
    string_of(&v)
}

/// The parts, separated by commas (none after the last).
pub open spec fn spec_comma_joined(parts: Seq<Seq<SpecTok>>) -> Seq<SpecTok>
    decreases parts.len(),
{
    if parts.len() == 0 {
        Seq::empty()
    } else if parts.len() == 1 {
        parts[0]
    } else {
        spec_comma_joined(parts.drop_last()) + seq![SpecTok::Punct(',', false)] + parts.last()
    }
}

/// The where clause with the predicates `extra` added after `preds` (a comma
/// between where both are there and `preds` does not end with one); nothing
/// where no predicate is left.
pub open spec fn spec_extended_where(preds: Seq<SpecTok>, extra: Seq<Seq<SpecTok>>) -> Seq<SpecTok> {
    let sep = if preds.len() > 0 && extra.len() > 0 && !(preds.last() == SpecTok::Punct(',', false)) {
        seq![SpecTok::Punct(',', false)]
    } else {
        Seq::empty()
    };
    let all = preds + sep + spec_comma_joined(extra);
    if all.len() == 0 {
        Seq::empty()
    } else {
        seq![SpecTok::Ident("where"@)] + all
    }
}

/// A field of the `ReprC` equivalent: `name: <T as co3::ExternC>::CType`,
/// or the foreign type alone for a positional field.
pub open spec fn spec_c_field(f: SpecField) -> Seq<SpecTok> {
    match f.name {
        Some(n) => seq![SpecTok::Ident(n), SpecTok::Punct(':', false)] + spec_c_type_tokens(f.ty),
        None => spec_c_type_tokens(f.ty),
    }
}

/// The `ReprC` equivalent of the struct `name`: `C{name}`, `#[repr(C)]`,
/// deriving `Clone`, with a field of each field's foreign type; `Copy`,
/// `co3::ReprC` and `Robust` (through `co3::mineral!`).
pub open spec fn spec_reprc_struct(
    name: Seq<char>,
    fs: Seq<SpecField>,
    ig: Seq<SpecTok>,
    tg: Seq<SpecTok>,
    wc: Seq<SpecTok>,
    params: Seq<SpecTok>,
    preds: Seq<SpecTok>,
) -> Seq<SpecTok> {
    let cname = spec_reprc_name(name);
    let doc = " [`ReprC`] equivalent of [`"@ + name + "`]"@;
    let fields = spec_comma_joined(Seq::new(fs.len(), |i: int| spec_c_field(fs[i])));
    spec_attr(seq![SpecTok::Ident("repr"@), SpecTok::Group(Delimiter::Parenthesis, seq![SpecTok::Ident("C"@)])])
        + spec_attr(seq![SpecTok::Ident("doc"@), SpecTok::Punct('=', false), spec_str_lit(doc)]) + spec_attr(
        seq![SpecTok::Ident("derive"@), SpecTok::Group(Delimiter::Parenthesis, seq![SpecTok::Ident("Clone"@)])],
    ) + seq![SpecTok::Ident("struct"@), SpecTok::Ident(cname)] + ig + wc + seq![SpecTok::Group(Delimiter::Brace, fields)]
        + spec_impl_block(ig, seq![SpecTok::Ident("Copy"@)], cname, tg, wc, Seq::empty()) + seq![SpecTok::Ident("unsafe"@)]
        + spec_impl_block(ig, spec_path2("co3"@, "ReprC"@), cname, tg, wc, Seq::empty()) + spec_path2("co3"@, "mineral"@)
        + seq![
        SpecTok::Punct('!', false),
        SpecTok::Group(
            Delimiter::Brace,
            seq![
                SpecTok::Ident("impl"@),
                SpecTok::Group(Delimiter::Parenthesis, params),
                SpecTok::Ident("Robust"@),
                SpecTok::Ident("for"@),
                SpecTok::Ident(cname),
                SpecTok::Ident("where"@),
                SpecTok::Group(Delimiter::Parenthesis, preds),
                SpecTok::Group(Delimiter::Brace, Seq::empty()),
            ],
        ),
    ]
}

/// `&mut store.i`
pub open spec fn spec_slot(i: nat) -> Seq<SpecTok> {
    seq![
        SpecTok::Punct('&', false),
        SpecTok::Ident("mut"@),
        SpecTok::Ident("store"@),
        SpecTok::Punct('.', false),
        SpecTok::Literal(spec_decimal(i)),
    ]
}

/// The binding of field `i`: its name, or `field_i`.
pub open spec fn spec_binding(f: SpecField, i: nat) -> Seq<char> {
    match f.name {
        Some(n) => n,
        None => "field_"@ + spec_decimal(i),
    }
}

/// `co3::Encode::encode(b, &mut store.i)` for field `i` bound to `b`.
pub open spec fn spec_encode_call(b: Seq<char>, i: nat) -> Seq<SpecTok> {
    spec_path3("co3"@, "Encode"@, "encode"@) + seq![
        SpecTok::Group(Delimiter::Parenthesis, seq![SpecTok::Ident(b), SpecTok::Punct(',', false)] + spec_slot(i)),
    ]
}

/// `co3::Decode::decode(source.x, &mut store.i)?` for field `i`, read as `x`.
pub open spec fn spec_decode_call(x: SpecTok, i: nat) -> Seq<SpecTok> {
    spec_path3("co3"@, "Decode"@, "decode"@) + seq![
        SpecTok::Group(
            Delimiter::Parenthesis,
            seq![SpecTok::Ident("source"@), SpecTok::Punct('.', false), x, SpecTok::Punct(',', false)] + spec_slot(i),
        ),
        SpecTok::Punct('?', false),
    ]
}

/// What `encode` does after preparing the store: take the value apart
/// (`let Self { a, b } = self;` or `let Self(field_0, ..) = self;`) and
/// build the `ReprC` equivalent of the fields, each encoded into its slot.
pub open spec fn spec_encode_impl(cname: Seq<char>, style: FieldStyle, fs: Seq<SpecField>) -> Seq<SpecTok> {
    let binds = spec_comma_joined(Seq::new(fs.len(), |i: int| seq![SpecTok::Ident(spec_binding(fs[i], i as nat))]));
    match style {
        FieldStyle::Named => seq![
            SpecTok::Ident("let"@),
            SpecTok::Ident("Self"@),
            SpecTok::Group(Delimiter::Brace, binds),
            SpecTok::Punct('=', false),
            SpecTok::Ident("self"@),
            SpecTok::Punct(';', false),
            SpecTok::Ident(cname),
            SpecTok::Group(
                Delimiter::Brace,
                spec_comma_joined(
                    Seq::new(
                        fs.len(),
                        |i: int|
                            seq![SpecTok::Ident(spec_binding(fs[i], i as nat)), SpecTok::Punct(':', false)]
                                + spec_encode_call(spec_binding(fs[i], i as nat), i as nat),
                    ),
                ),
            ),
        ],
        FieldStyle::Tuple => seq![
            SpecTok::Ident("let"@),
            SpecTok::Ident("Self"@),
            SpecTok::Group(Delimiter::Parenthesis, binds),
            SpecTok::Punct('=', false),
            SpecTok::Ident("self"@),
            SpecTok::Punct(';', false),
            SpecTok::Ident(cname),
            SpecTok::Group(
                Delimiter::Parenthesis,
                spec_comma_joined(Seq::new(fs.len(), |i: int| spec_encode_call(spec_binding(fs[i], i as nat), i as nat))),
            ),
        ],
        FieldStyle::Unit => seq![SpecTok::Ident(cname)],
    }
}

/// What `decode` does after preparing the store: `Ok` of the value built
/// from each field decoded from its slot, `?` passing an error on.
pub open spec fn spec_decode_impl(style: FieldStyle, fs: Seq<SpecField>) -> Seq<SpecTok> {
    let inner = match style {
        FieldStyle::Named => seq![
            SpecTok::Ident("Self"@),
            SpecTok::Group(
                Delimiter::Brace,
                spec_comma_joined(
                    Seq::new(
                        fs.len(),
                        |i: int|
                            seq![SpecTok::Ident(spec_binding(fs[i], i as nat)), SpecTok::Punct(':', false)]
                                + spec_decode_call(SpecTok::Ident(spec_binding(fs[i], i as nat)), i as nat),
                    ),
                ),
            ),
        ],
        FieldStyle::Tuple => seq![
            SpecTok::Ident("Self"@),
            SpecTok::Group(
                Delimiter::Parenthesis,
                spec_comma_joined(
                    Seq::new(fs.len(), |i: int| spec_decode_call(SpecTok::Literal(spec_decimal(i as nat)), i as nat)),
                ),
            ),
        ],
        FieldStyle::Unit => seq![SpecTok::Ident("Self"@)],
    };
    seq![SpecTok::Ident("Ok"@), SpecTok::Group(Delimiter::Parenthesis, inner)]
}

/// `<T as co3::Encode>::Store` for each field.
pub open spec fn spec_field_rust_stores(fs: Seq<SpecField>) -> Seq<Seq<SpecTok>> {
    Seq::new(
        fs.len(),
        |i: int|
            seq![SpecTok::Punct('<', false)] + fs[i].ty + seq![SpecTok::Ident("as"@)] + spec_path2("co3"@, "Encode"@) + seq![
                SpecTok::Punct('>', false),
                SpecTok::Punct(':', true),
                SpecTok::Punct(':', false),
                SpecTok::Ident("Store"@),
            ],
    )
}

/// `<T as co3::Decode<'_dšč>>::Store` for each field.
pub open spec fn spec_field_ffi_stores(fs: Seq<SpecField>) -> Seq<Seq<SpecTok>> {
    Seq::new(
        fs.len(),
        |i: int|
            seq![SpecTok::Punct('<', false)] + fs[i].ty + seq![SpecTok::Ident("as"@)] + spec_path2("co3"@, "Decode"@) + seq![
                SpecTok::Punct('<', false),
            ] + spec_lifetime("_dšč"@) + seq![
                SpecTok::Punct('>', false),
                SpecTok::Punct('>', false),
                SpecTok::Punct(':', true),
                SpecTok::Punct(':', false),
                SpecTok::Ident("Store"@),
            ],
    )
}

/// `T: bound` for each field.
pub open spec fn spec_field_bounds(fs: Seq<SpecField>, bound: Seq<SpecTok>) -> Seq<Seq<SpecTok>> {
    Seq::new(fs.len(), |i: int| fs[i].ty + seq![SpecTok::Punct(':', false)] + bound)
}

/// `for<'_dummy> T: co3::out_ptr::NonLocal` for each field.
pub open spec fn spec_non_local_bounds(fs: Seq<SpecField>) -> Seq<Seq<SpecTok>> {
    Seq::new(
        fs.len(),
        |i: int|
            seq![SpecTok::Ident("for"@), SpecTok::Punct('<', false)] + spec_lifetime("_dummy"@) + seq![
                SpecTok::Punct('>', false),
            ] + fs[i].ty + seq![SpecTok::Punct(':', false)] + spec_path3("co3"@, "out_ptr"@, "NonLocal"@),
    )
}

/// `co3::niche::Ir<Type = co3::niche::WithoutNiche>`
pub open spec fn spec_without_niche_bound() -> Seq<SpecTok> {
    spec_path3("co3"@, "niche"@, "Ir"@) + seq![SpecTok::Punct('<', false), SpecTok::Ident("Type"@), SpecTok::Punct('=', false)]
        + spec_path3("co3"@, "niche"@, "WithoutNiche"@) + seq![SpecTok::Punct('>', false)]
}

/// `type Type = path;`
pub open spec fn spec_type_item(path: Seq<SpecTok>) -> Seq<SpecTok> {
    seq![SpecTok::Ident("type"@), SpecTok::Ident("Type"@), SpecTok::Punct('=', false)] + path + seq![
        SpecTok::Punct(';', false),
    ]
}

/// The body of `OutPtrRead`: `try_read_out`, giving `co3::Result<Self>`.
pub open spec fn spec_result_read_body() -> Seq<SpecTok> {
    seq![
        SpecTok::Ident("unsafe"@),
        SpecTok::Ident("fn"@),
        SpecTok::Ident("try_read_out"@),
        spec_out_ptr_body3()[3],
    ] + spec_arrow() + spec_path2("co3"@, "Result"@) + seq![
        SpecTok::Punct('<', false),
        SpecTok::Ident("Self"@),
        SpecTok::Punct('>', false),
        spec_out_ptr_body3().last(),
    ]
}

/// The `Encode` impl of a struct: one store slot per field, each field
/// encoded into its slot.
pub open spec fn spec_struct_encode(
    name: Seq<char>,
    style: FieldStyle,
    fs: Seq<SpecField>,
    ig: Seq<SpecTok>,
    tg: Seq<SpecTok>,
    wc: Seq<SpecTok>,
) -> Seq<SpecTok> {
    spec_impl_block(ig, spec_path2("co3"@, "Encode"@), name, tg, wc, spec_encode_body(name, style, fs))
}

/// The body of the `Encode` impl of a struct.
pub open spec fn spec_encode_body(name: Seq<char>, style: FieldStyle, fs: Seq<SpecField>) -> Seq<SpecTok> {
    let cname = spec_reprc_name(name);
    let (rust_store, ffi_store, init) = spec_store_types(fs.len(), spec_field_rust_stores(fs), spec_field_ffi_stores(fs));
    let encode_body = seq![SpecTok::Ident("type"@), SpecTok::Ident("Store"@), SpecTok::Punct('=', false)] + rust_store
        + seq![SpecTok::Punct(';', false), SpecTok::Ident("fn"@), SpecTok::Ident("encode"@), SpecTok::Punct('<', false)]
        + spec_lifetime("_išč"@) + seq![
        SpecTok::Punct('>', false),
        SpecTok::Group(
            Delimiter::Parenthesis,
            seq![SpecTok::Ident("self"@), SpecTok::Punct(',', false), SpecTok::Ident("store"@), SpecTok::Punct(':', false), SpecTok::Punct('&', false)]
                + spec_lifetime("_išč"@) + seq![
                SpecTok::Ident("mut"@),
                SpecTok::Ident("Self"@),
                SpecTok::Punct(':', true),
                SpecTok::Punct(':', false),
                SpecTok::Ident("Store"@),
            ],
        ),
    ] + spec_arrow() + spec_self_c_type() + seq![SpecTok::Ident("where"@), SpecTok::Ident("Self"@), SpecTok::Punct(':', false)]
        + spec_lifetime("_išč"@) + seq![SpecTok::Group(Delimiter::Brace, init + spec_encode_impl(cname, style, fs))];
    encode_body
}

/// The `Decode` impl of a struct: each field decoded from its slot, an
/// error passed on.
pub open spec fn spec_struct_decode(
    name: Seq<char>,
    style: FieldStyle,
    fs: Seq<SpecField>,
    tg: Seq<SpecTok>,
    wc: Seq<SpecTok>,
    params: Seq<SpecTok>,
) -> Seq<SpecTok> {
    let decode_ig = seq![SpecTok::Punct('<', false)] + spec_lifetime("_dšč"@) + seq![SpecTok::Punct(',', false)] + params
        + seq![SpecTok::Punct('>', false)];
    let decode_path = spec_path2("co3"@, "Decode"@) + seq![SpecTok::Punct('<', false)] + spec_lifetime("_dšč"@) + seq![
        SpecTok::Punct('>', false),
    ];
    spec_impl_block(decode_ig, decode_path, name, tg, wc, spec_decode_body(style, fs))
}

/// The body of the `Decode` impl of a struct.
pub open spec fn spec_decode_body(style: FieldStyle, fs: Seq<SpecField>) -> Seq<SpecTok> {
    let (rust_store, ffi_store, init) = spec_store_types(fs.len(), spec_field_rust_stores(fs), spec_field_ffi_stores(fs));
    let decode_body = seq![SpecTok::Ident("type"@), SpecTok::Ident("Store"@), SpecTok::Punct('=', false)] + ffi_store
        + seq![
        SpecTok::Punct(';', false),
        SpecTok::Ident("unsafe"@),
        SpecTok::Ident("fn"@),
        SpecTok::Ident("decode"@),
        SpecTok::Punct('<', false),
    ] + spec_lifetime("_išč"@) + seq![SpecTok::Punct(':', false)] + spec_lifetime("_dšč"@) + seq![
        SpecTok::Punct('>', false),
        SpecTok::Group(
            Delimiter::Parenthesis,
            seq![SpecTok::Ident("source"@), SpecTok::Punct(':', false)] + spec_self_c_type() + seq![
                SpecTok::Punct(',', false),
                SpecTok::Ident("store"@),
                SpecTok::Punct(':', false),
                SpecTok::Punct('&', false),
            ] + spec_lifetime("_išč"@) + seq![
                SpecTok::Ident("mut"@),
                SpecTok::Ident("Self"@),
                SpecTok::Punct(':', true),
                SpecTok::Punct(':', false),
                SpecTok::Ident("Store"@),
            ],
        ),
    ] + spec_arrow() + spec_path2("co3"@, "Result"@) + seq![
        SpecTok::Punct('<', false),
        SpecTok::Ident("Self"@),
        SpecTok::Punct('>', false),
        SpecTok::Group(Delimiter::Brace, init + spec_decode_impl(style, fs)),
    ];
    decode_body
}

/// What a struct without a `#[repr]` derives, from its name, how its fields
/// are written, its fields, the parts of its generics as `split_for_impl`
/// gives them (`ig`, `tg`, the where clause `wc` made present, the where
/// clause `dwc` as declared, which its `ReprC` equivalent takes, and the
/// predicates `preds`), its parameter list, and whether it is local: its `ReprC`
/// equivalent; `co3::ir::Cloned`, `co3::ir::Ir` as itself; a niche family
/// without a niche where every field has none, and with a custom niche (the
/// zeroed equivalent) otherwise; `ExternC` with its equivalent; `Encode` and
/// `Decode` field by field, one store slot per field (an `Option` of them
/// beyond twelve); and, where it is not local, `NonLocal` and the
/// out-pointer impls, where every field type is `NonLocal` for any lifetime.
pub open spec fn spec_no_repr_struct(
    name: Seq<char>,
    style: FieldStyle,
    fs: Seq<SpecField>,
    ig: Seq<SpecTok>,
    tg: Seq<SpecTok>,
    wc: Seq<SpecTok>,
    dwc: Seq<SpecTok>,
    params: Seq<SpecTok>,
    preds: Seq<SpecTok>,
    local: bool,
) -> Seq<SpecTok> {
    let cname = spec_reprc_name(name);
    let without = spec_extended_where(preds, spec_field_bounds(fs, spec_without_niche_bound()));
    let nlw = spec_extended_where(preds, spec_non_local_bounds(fs));
    spec_reprc_struct(name, fs, ig, tg, dwc, params, preds) + spec_impl_block(
        ig,
        spec_path3("co3"@, "ir"@, "Cloned"@),
        name,
        tg,
        wc,
        Seq::empty(),
    ) + spec_impl_block(ig, spec_path3("co3"@, "ir"@, "Ir"@), name, tg, wc, spec_type_item(seq![SpecTok::Ident("Self"@)]))
        + spec_impl_block(
        ig,
        spec_path3("co3"@, "niche"@, "Ir"@),
        name,
        tg,
        without,
        spec_type_item(spec_path3("co3"@, "niche"@, "WithoutNiche"@)),
    ) + spec_impl_block(
        ig,
        spec_path3("co3"@, "niche"@, "Ir"@),
        name,
        tg,
        wc,
        spec_type_item(spec_path3("co3"@, "niche"@, "WithCustomNiche"@)),
    ) + spec_impl_block(
        ig,
        spec_path3("co3"@, "niche"@, "Niche"@),
        name,
        tg,
        wc,
        seq![
            SpecTok::Ident("const"@),
            SpecTok::Ident("NICHE_VALUE"@),
            SpecTok::Punct(':', false),
            SpecTok::Ident(cname),
            SpecTok::Punct('=', false),
            SpecTok::Ident("unsafe"@),
            SpecTok::Group(
                Delimiter::Brace,
                spec_path3("core"@, "mem"@, "zeroed"@) + seq![SpecTok::Group(Delimiter::Parenthesis, Seq::empty())],
            ),
            SpecTok::Punct(';', false),
        ],
    ) + spec_impl_block(
        ig,
        spec_path2("co3"@, "ExternC"@),
        name,
        tg,
        wc,
        seq![SpecTok::Ident("type"@), SpecTok::Ident("CType"@), SpecTok::Punct('=', false), SpecTok::Ident(cname)] + tg
            + seq![SpecTok::Punct(';', false)],
    ) + spec_struct_encode(name, style, fs, ig, tg, wc) + spec_struct_decode(name, style, fs, tg, wc, params) + if local {
        Seq::empty()
    } else {
        seq![SpecTok::Ident("unsafe"@)] + spec_impl_block(ig, spec_path3("co3"@, "out_ptr"@, "NonLocal"@), name, tg, nlw, Seq::empty())
            + spec_impl_block(ig, spec_path3("co3"@, "out_ptr"@, "OutPtr"@), name, tg, nlw, spec_out_ptr_body1())
            + spec_impl_block(ig, spec_path3("co3"@, "out_ptr"@, "OutPtrWrite"@), name, tg, nlw, spec_out_ptr_body2())
            + spec_impl_block(ig, spec_path3("co3"@, "out_ptr"@, "OutPtrRead"@), name, tg, nlw, spec_result_read_body())
    }
}

pub(crate) fn lifetime(name: &str) -> (r: Vec<Tok>)
    ensures
        toks_view(r@) == spec_lifetime(name@),
{
    let r = vec![Tok::Punct('\'', true), ident(name)];
    assert(toks_view(r@) =~= spec_lifetime(name@));
    r
}

pub(crate) fn lit(i: usize) -> (r: Tok)
    ensures
        r@ == SpecTok::Literal(spec_decimal(i as nat)),
{
    Tok::Literal(string_of(&decimal(i)))
}

/// The parts, separated by commas.
pub(crate) fn comma_joined(parts: &Vec<Vec<Tok>>) -> (r: Vec<Tok>)
    ensures
        toks_view(r@) == spec_comma_joined(lists_view(parts@)),
{
    let ghost pv = lists_view(parts@);
    let mut out: Vec<Tok> = Vec::new();
    let mut i: usize = 0;
    assert(toks_view(out@) =~= Seq::<SpecTok>::empty());
    assert(pv.take(0) =~= Seq::<Seq<SpecTok>>::empty());
    while i < parts.len()
        invariant
            i <= parts@.len(),
            pv == lists_view(parts@),
            toks_view(out@) == spec_comma_joined(pv.take(i as int)),
        decreases parts@.len() - i,
    {
        let ghost o0 = toks_view(out@);
        assert(pv.take(i + 1).drop_last() =~= pv.take(i as int));
        assert(pv.take(i + 1).last() == toks_view(parts@[i as int]@));
        if i > 0 {
            out.push(Tok::Punct(',', false));
            append_toks(&mut out, &parts[i]);
            assert(toks_view(out@) =~= o0 + seq![SpecTok::Punct(',', false)] + toks_view(parts@[i as int]@));
        } else {
            append_toks(&mut out, &parts[i]);
            assert(pv.take(1)[0] == toks_view(parts@[0]@));
            assert(toks_view(out@) =~= toks_view(parts@[0]@));
        }
        i = i + 1;
    }
    assert(pv.take(parts@.len() as int) =~= pv);
    out
}

pub(crate) fn extended_where(preds: &Vec<Tok>, extra: &Vec<Vec<Tok>>) -> (r: Vec<Tok>)
    ensures
        toks_view(r@) == spec_extended_where(toks_view(preds@), lists_view(extra@)),
{
    proof {
        reveal_strlit("where");
    }
    let ghost pv = toks_view(preds@);
    let mut all: Vec<Tok> = Vec::new();
    append_toks(&mut all, preds);
    let ends_comma = preds.len() > 0 && match &preds[preds.len() - 1] {
        Tok::Punct(c, joint) => *c == ',' && !*joint,
        _ => false,
    };
    proof {
        if preds@.len() > 0 {
            assert(pv.last() == preds@[preds@.len() - 1]@);
        }
    }
    let ghost a0 = toks_view(all@);
    if preds.len() > 0 && extra.len() > 0 && !ends_comma {
        all.push(Tok::Punct(',', false));
    }
    let ghost a1 = toks_view(all@);
    append_toks(&mut all, &comma_joined(extra));
    if all.len() == 0 {
        let e: Vec<Tok> = Vec::new();
        assert(toks_view(e@) =~= Seq::<SpecTok>::empty());
        assert(toks_view(all@).len() == 0);
        return e;
    }
    let mut r = vec![ident("where")];
    assert(toks_view(r@) =~= seq![SpecTok::Ident("where"@)]);
    append_toks(&mut r, &all);
    r
}

fn c_field(f: &StructField) -> (r: Vec<Tok>)
    ensures
        toks_view(r@) == spec_c_field(f@),
{
    match &f.name {
        Some(n) => {
            let mut r = vec![Tok::Ident(n.clone()), Tok::Punct(':', false)];
            assert(toks_view(r@) =~= seq![SpecTok::Ident(n@), SpecTok::Punct(':', false)]);
            append_toks(&mut r, &c_type_tokens(&f.ty));
            r
        },
        None => c_type_tokens(&f.ty),
    }
}

pub(crate) fn str_lit_of(text: &str) -> (r: Tok)
    ensures
        r@ == spec_str_lit(text@),
{
    let mut v: Vec<char> = Vec::new();
    v.push('"');
    crate::text::push_str(&mut v, text);
    v.push('"');
    proof {
        reveal_strlit("\"");
        assert(v@ =~= "\""@ + text@ + "\""@);
    }
    Tok::Literal(string_of(&v))
}

pub(crate) fn cat(parts: &Vec<&str>) -> (r: String)
    ensures
        parts@.len() == 3 ==> r@ == parts@[0]@ + parts@[1]@ + parts@[2]@,
{
    let mut v: Vec<char> = Vec::new();
    let mut i: usize = 0;
    while i < parts.len()
        invariant
            i <= parts@.len(),
            i == 0 ==> v@ == Seq::<char>::empty(),
            parts@.len() == 3 && i == 1 ==> v@ == parts@[0]@,
            parts@.len() == 3 && i == 2 ==> v@ == parts@[0]@ + parts@[1]@,
            parts@.len() == 3 && i == 3 ==> v@ == parts@[0]@ + parts@[1]@ + parts@[2]@,
        decreases parts@.len() - i,
    {
        crate::text::push_str(&mut v, parts[i]);
        i = i + 1;
    }
    string_of(&v)
}

pub(crate) fn attr_of(inner: Vec<Tok>) -> (r: Vec<Tok>)
    ensures
        toks_view(r@) == spec_attr(toks_view(inner@)),
{
    let ghost iv = toks_view(inner@);
    let r = vec![Tok::Punct('#', false), Tok::Group(Delimiter::Bracket, inner)];
    assert(toks_view(r@) =~= spec_attr(iv));
    r
}

pub(crate) fn paren_ident(name: &str) -> (r: Tok)
    ensures
        r@ == SpecTok::Group(Delimiter::Parenthesis, seq![SpecTok::Ident(name@)]),
{
    let v = vec![ident(name)];
    assert(toks_view(v@) =~= seq![SpecTok::Ident(name@)]);
    Tok::Group(Delimiter::Parenthesis, v)
}

fn reprc_struct(
    name: &str,
    fs: &Vec<StructField>,
    ig: &Vec<Tok>,
    tg: &Vec<Tok>,
    wc: &Vec<Tok>,
    params: &Vec<Tok>,
    preds: &Vec<Tok>,
) -> (r: Vec<Tok>)
    ensures
        toks_view(r@) == spec_reprc_struct(name@, fields_view(fs@), toks_view(ig@), toks_view(tg@), toks_view(wc@), toks_view(params@), toks_view(preds@)),
{
    proof {
        reveal_strlit("repr");
        reveal_strlit("C");
        reveal_strlit("doc");
        reveal_strlit("derive");
        reveal_strlit("Clone");
        reveal_strlit("struct");
        reveal_strlit("Copy");
        reveal_strlit("unsafe");
        reveal_strlit("impl");
        reveal_strlit("Robust");
        reveal_strlit("for");
        reveal_strlit("where");
    }
    let ghost fv = fields_view(fs@);
    let cname = reprc_name(name);
    let doc = cat(&vec![" [`ReprC`] equivalent of [`", name, "`]"]);
    let mut parts: Vec<Vec<Tok>> = Vec::new();
    let mut i: usize = 0;
    while i < fs.len()
        invariant
            i <= fs@.len(),
            fv == fields_view(fs@),
            parts@.len() == i,
            forall|j: int| 0 <= j < i ==> toks_view((#[trigger] parts@[j])@) == spec_c_field(fv[j]),
        decreases fs@.len() - i,
    {
        parts.push(c_field(&fs[i]));
        i = i + 1;
    }
    assert(lists_view(parts@) =~= Seq::new(fv.len(), |i: int| spec_c_field(fv[i])));
    let fields = comma_joined(&parts);
    let ghost fsv = toks_view(fields@);
    let mut out = attr_of({
        let v = vec![ident("repr"), paren_ident("C")];
        assert(toks_view(v@) =~= seq![
        SpecTok::Ident("repr"@),
        SpecTok::Group(Delimiter::Parenthesis, seq![SpecTok::Ident("C"@)]),
    ]);
        v
    });
    append_toks(&mut out, &attr_of({
        let v = vec![ident("doc"), Tok::Punct('=', false), str_lit_of(doc.as_str())];
        assert(toks_view(v@) =~= seq![
        SpecTok::Ident("doc"@),
        SpecTok::Punct('=', false),
        spec_str_lit(doc@),
    ]);
        v
    }));
    append_toks(&mut out, &attr_of({
        let v = vec![ident("derive"), paren_ident("Clone")];
        assert(toks_view(v@) =~= seq![
        SpecTok::Ident("derive"@),
        SpecTok::Group(Delimiter::Parenthesis, seq![SpecTok::Ident("Clone"@)]),
    ]);
        v
    }));
    append_toks(&mut out, &{
        let v = vec![ident("struct"), Tok::Ident(cname.clone())];
        assert(toks_view(v@) =~= seq![
        SpecTok::Ident("struct"@),
        SpecTok::Ident(cname@),
    ]);
        v
    });
    append_toks(&mut out, ig);
    append_toks(&mut out, wc);
    append_toks(&mut out, &{
        let v = vec![Tok::Group(Delimiter::Brace, fields)];
        assert(toks_view(v@) =~= seq![SpecTok::Group(Delimiter::Brace, fsv)]);
        v
    });
    let empty: Vec<Tok> = Vec::new();
    assert(toks_view(empty@) =~= Seq::<SpecTok>::empty());
    append_toks(&mut out, &impl_block(ig, &{
        let v = vec![ident("Copy")];
        assert(toks_view(v@) =~= seq![SpecTok::Ident("Copy"@)]);
        v
    }, cname.as_str(), tg, wc, empty));
    append_toks(&mut out, &{
        let v = vec![ident("unsafe")];
        assert(toks_view(v@) =~= seq![SpecTok::Ident("unsafe"@)]);
        v
    });
    let empty2: Vec<Tok> = Vec::new();
    assert(toks_view(empty2@) =~= Seq::<SpecTok>::empty());
    append_toks(&mut out, &impl_block(ig, &path2("co3", "ReprC"), cname.as_str(), tg, wc, empty2));
    append_toks(&mut out, &path2("co3", "mineral"));
    let mut pcopy: Vec<Tok> = Vec::new();
    append_toks(&mut pcopy, params);
    assert(toks_view(pcopy@) =~= toks_view(params@));
    let mut dcopy: Vec<Tok> = Vec::new();
    append_toks(&mut dcopy, preds);
    assert(toks_view(dcopy@) =~= toks_view(preds@));
    let empty3: Vec<Tok> = Vec::new();
    assert(toks_view(empty3@) =~= Seq::<SpecTok>::empty());
    let inner = vec![
        ident("impl"),
        Tok::Group(Delimiter::Parenthesis, pcopy),
        ident("Robust"),
        ident("for"),
        Tok::Ident(cname),
        ident("where"),
        Tok::Group(Delimiter::Parenthesis, dcopy),
        Tok::Group(Delimiter::Brace, empty3),
    ];
    let ghost innerv = seq![
        SpecTok::Ident("impl"@),
        SpecTok::Group(Delimiter::Parenthesis, toks_view(params@)),
        SpecTok::Ident("Robust"@),
        SpecTok::Ident("for"@),
        SpecTok::Ident(spec_reprc_name(name@)),
        SpecTok::Ident("where"@),
        SpecTok::Group(Delimiter::Parenthesis, toks_view(preds@)),
        SpecTok::Group(Delimiter::Brace, Seq::empty()),
    ];
    assert(toks_view(inner@) =~= innerv);
    append_toks(&mut out, &{
        let v = vec![Tok::Punct('!', false), Tok::Group(Delimiter::Brace, inner)];
        assert(toks_view(v@) =~= seq![
        SpecTok::Punct('!', false),
        SpecTok::Group(Delimiter::Brace, innerv),
    ]);
        v
    });
    out
}

pub(crate) fn slot(i: usize) -> (r: Vec<Tok>)
    ensures
        toks_view(r@) == spec_slot(i as nat),
{
    proof {
        reveal_strlit("mut");
        reveal_strlit("store");
    }
    let r = vec![Tok::Punct('&', false), ident("mut"), ident("store"), Tok::Punct('.', false), lit(i)];
    assert(toks_view(r@) =~= spec_slot(i as nat));
    r
}

fn binding(f: &StructField, i: usize) -> (r: String)
    ensures
        r@ == spec_binding(f@, i as nat),
{
    match &f.name {
        Some(n) => n.clone(),
        None => {
            let mut v: Vec<char> = Vec::new();
            crate::text::push_str(&mut v, "field_");
            let d = decimal(i);
            crate::text::push_chars(&mut v, &d);
            proof {
                reveal_strlit("field_");
            }
            string_of(&v)
        },
    }
}

fn encode_call(b: &String, i: usize) -> (r: Vec<Tok>)
    ensures
        toks_view(r@) == spec_encode_call(b@, i as nat),
{
    let mut args = vec![Tok::Ident(b.clone()), Tok::Punct(',', false)];
    assert(toks_view(args@) =~= seq![SpecTok::Ident(b@), SpecTok::Punct(',', false)]);
    append_toks(&mut args, &slot(i));
    let ghost av = toks_view(args@);
    let mut r = path3("co3", "Encode", "encode");
    let g = vec![Tok::Group(Delimiter::Parenthesis, args)];
    assert(toks_view(g@) =~= seq![SpecTok::Group(Delimiter::Parenthesis, av)]);
    append_toks(&mut r, &g);
    r
}

fn decode_call(x: Tok, i: usize) -> (r: Vec<Tok>)
    ensures
        toks_view(r@) == spec_decode_call(x@, i as nat),
{
    proof {
        reveal_strlit("source");
    }
    let ghost xv = x@;
    let mut args = vec![ident("source"), Tok::Punct('.', false), x, Tok::Punct(',', false)];
    assert(toks_view(args@) =~= seq![SpecTok::Ident("source"@), SpecTok::Punct('.', false), xv, SpecTok::Punct(',', false)]);
    append_toks(&mut args, &slot(i));
    let ghost av = toks_view(args@);
    let mut r = path3("co3", "Decode", "decode");
    let g = vec![Tok::Group(Delimiter::Parenthesis, args), Tok::Punct('?', false)];
    assert(toks_view(g@) =~= seq![SpecTok::Group(Delimiter::Parenthesis, av), SpecTok::Punct('?', false)]);
    append_toks(&mut r, &g);
    r
}

fn encode_impl(cname: &String, style: FieldStyle, fs: &Vec<StructField>) -> (r: Vec<Tok>)
    ensures
        toks_view(r@) == spec_encode_impl(cname@, style, fields_view(fs@)),
{
    proof {
        reveal_strlit("let");
        reveal_strlit("Self");
        reveal_strlit("self");
    }
    let ghost fv = fields_view(fs@);
    if let FieldStyle::Unit = style {
        let r = vec![Tok::Ident(cname.clone())];
        assert(toks_view(r@) =~= spec_encode_impl(cname@, style, fv));
        return r;
    }
    let mut binds: Vec<Vec<Tok>> = Vec::new();
    let mut vals: Vec<Vec<Tok>> = Vec::new();
    let mut i: usize = 0;
    while i < fs.len()
        invariant
            i <= fs@.len(),
            fv == fields_view(fs@),
            binds@.len() == i,
            vals@.len() == i,
            style != FieldStyle::Unit,
            forall|j: int| 0 <= j < i ==> toks_view((#[trigger] binds@[j])@) == seq![SpecTok::Ident(spec_binding(fv[j], j as nat))],
            forall|j: int|
                0 <= j < i ==> toks_view((#[trigger] vals@[j])@) == (if style == FieldStyle::Named {
                    seq![SpecTok::Ident(spec_binding(fv[j], j as nat)), SpecTok::Punct(':', false)]
                        + spec_encode_call(spec_binding(fv[j], j as nat), j as nat)
                } else {
                    spec_encode_call(spec_binding(fv[j], j as nat), j as nat)
                }),
        decreases fs@.len() - i,
    {
        let b = binding(&fs[i], i);
        let bt = vec![Tok::Ident(b.clone())];
        assert(toks_view(bt@) =~= seq![SpecTok::Ident(b@)]);
        binds.push(bt);
        let call = encode_call(&b, i);
        if let FieldStyle::Named = style {
            let mut v = vec![Tok::Ident(b.clone()), Tok::Punct(':', false)];
            assert(toks_view(v@) =~= seq![SpecTok::Ident(b@), SpecTok::Punct(':', false)]);
            append_toks(&mut v, &call);
            vals.push(v);
        } else {
            vals.push(call);
        }
        i = i + 1;
    }
    let ghost bseq = Seq::new(fv.len(), |i: int| seq![SpecTok::Ident(spec_binding(fv[i], i as nat))]);
    assert(lists_view(binds@) =~= bseq);
    let bj = comma_joined(&binds);
    let vj = comma_joined(&vals);
    let ghost bjv = toks_view(bj@);
    let ghost vjv = toks_view(vj@);
    let named = style == FieldStyle::Named;
    let d = if named {
        Delimiter::Brace
    } else {
        Delimiter::Parenthesis
    };
    let r = vec![
        ident("let"),
        ident("Self"),
        Tok::Group(d, bj),
        Tok::Punct('=', false),
        ident("self"),
        Tok::Punct(';', false),
        Tok::Ident(cname.clone()),
        Tok::Group(d, vj),
    ];
    if named {
        assert(lists_view(vals@) =~= Seq::new(
            fv.len(),
            |i: int|
                seq![SpecTok::Ident(spec_binding(fv[i], i as nat)), SpecTok::Punct(':', false)]
                    + spec_encode_call(spec_binding(fv[i], i as nat), i as nat),
        ));
    } else {
        assert(lists_view(vals@) =~= Seq::new(
            fv.len(),
            |i: int| spec_encode_call(spec_binding(fv[i], i as nat), i as nat),
        ));
    }
    assert(toks_view(r@) =~= spec_encode_impl(cname@, style, fv));
    r
}

fn decode_impl(style: FieldStyle, fs: &Vec<StructField>) -> (r: Vec<Tok>)
    ensures
        toks_view(r@) == spec_decode_impl(style, fields_view(fs@)),
{
    proof {
        reveal_strlit("Ok");
        reveal_strlit("Self");
    }
    let ghost fv = fields_view(fs@);
    let inner = if let FieldStyle::Unit = style {
        let v = vec![ident("Self")];
        assert(toks_view(v@) =~= seq![SpecTok::Ident("Self"@)]);
        v
    } else {
        let mut vals: Vec<Vec<Tok>> = Vec::new();
        let mut i: usize = 0;
        while i < fs.len()
            invariant
                i <= fs@.len(),
                fv == fields_view(fs@),
                vals@.len() == i,
                style != FieldStyle::Unit,
                forall|j: int|
                    0 <= j < i ==> toks_view((#[trigger] vals@[j])@) == (if style == FieldStyle::Named {
                        seq![SpecTok::Ident(spec_binding(fv[j], j as nat)), SpecTok::Punct(':', false)]
                            + spec_decode_call(SpecTok::Ident(spec_binding(fv[j], j as nat)), j as nat)
                    } else {
                        spec_decode_call(SpecTok::Literal(spec_decimal(j as nat)), j as nat)
                    }),
            decreases fs@.len() - i,
        {
            if let FieldStyle::Named = style {
                let b = binding(&fs[i], i);
                let call = decode_call(Tok::Ident(b.clone()), i);
                let mut v = vec![Tok::Ident(b), Tok::Punct(':', false)];
                assert(toks_view(v@) =~= seq![SpecTok::Ident(spec_binding(fv[i as int], i as nat)), SpecTok::Punct(':', false)]);
                append_toks(&mut v, &call);
                vals.push(v);
            } else {
                vals.push(decode_call(lit(i), i));
            }
            i = i + 1;
        }
        let named = style == FieldStyle::Named;
        if named {
            assert(lists_view(vals@) =~= Seq::new(
                fv.len(),
                |i: int|
                    seq![SpecTok::Ident(spec_binding(fv[i], i as nat)), SpecTok::Punct(':', false)]
                        + spec_decode_call(SpecTok::Ident(spec_binding(fv[i], i as nat)), i as nat),
            ));
        } else {
            assert(lists_view(vals@) =~= Seq::new(
                fv.len(),
                |i: int| spec_decode_call(SpecTok::Literal(spec_decimal(i as nat)), i as nat),
            ));
        }
        let vj = comma_joined(&vals);
        let d = if named {
            Delimiter::Brace
        } else {
            Delimiter::Parenthesis
        };
        let ghost vjv = toks_view(vj@);
        let v = vec![ident("Self"), Tok::Group(d, vj)];
        assert(toks_view(v@) =~= seq![SpecTok::Ident("Self"@), SpecTok::Group(d, vjv)]);
        v
    };
    let ghost iv = toks_view(inner@);
    let r = vec![ident("Ok"), Tok::Group(Delimiter::Parenthesis, inner)];
    assert(toks_view(r@) =~= spec_decode_impl(style, fv));
    r
}

fn field_stores(fs: &Vec<StructField>) -> (r: (Vec<Vec<Tok>>, Vec<Vec<Tok>>))
    ensures
        lists_view(r.0@) == spec_field_rust_stores(fields_view(fs@)),
        lists_view(r.1@) == spec_field_ffi_stores(fields_view(fs@)),
{
    proof {
        reveal_strlit("as");
        reveal_strlit("Store");
    }
    let ghost fv = fields_view(fs@);
    let mut a: Vec<Vec<Tok>> = Vec::new();
    let mut b: Vec<Vec<Tok>> = Vec::new();
    let mut i: usize = 0;
    while i < fs.len()
        invariant
            i <= fs@.len(),
            fv == fields_view(fs@),
            a@.len() == i,
            b@.len() == i,
            forall|j: int| 0 <= j < i ==> toks_view((#[trigger] a@[j])@) == spec_field_rust_stores(fv)[j],
            forall|j: int| 0 <= j < i ==> toks_view((#[trigger] b@[j])@) == spec_field_ffi_stores(fv)[j],
        decreases fs@.len() - i,
    {
        let ghost tv = fv[i as int].ty;
        let mut x = vec![Tok::Punct('<', false)];
        append_toks(&mut x, &fs[i].ty);
        let asv = vec![ident("as")];
        assert(toks_view(asv@) =~= seq![SpecTok::Ident("as"@)]);
        append_toks(&mut x, &asv);
        let mut y = vec![Tok::Punct('<', false)];
        append_toks(&mut y, &fs[i].ty);
        append_toks(&mut y, &asv);
        append_toks(&mut x, &path2("co3", "Encode"));
        let tail = vec![Tok::Punct('>', false), Tok::Punct(':', true), Tok::Punct(':', false), ident("Store")];
        assert(toks_view(tail@) =~= seq![
            SpecTok::Punct('>', false),
            SpecTok::Punct(':', true),
            SpecTok::Punct(':', false),
            SpecTok::Ident("Store"@),
        ]);
        append_toks(&mut x, &tail);
        assert(toks_view(x@) =~= spec_field_rust_stores(fv)[i as int]);
        append_toks(&mut y, &path2("co3", "Decode"));
        let lt = vec![Tok::Punct('<', false)];
        assert(toks_view(lt@) =~= seq![SpecTok::Punct('<', false)]);
        append_toks(&mut y, &lt);
        append_toks(&mut y, &lifetime("_dšč"));
        let tail2 = vec![Tok::Punct('>', false), Tok::Punct('>', false), Tok::Punct(':', true), Tok::Punct(':', false), ident("Store")];
        assert(toks_view(tail2@) =~= seq![
            SpecTok::Punct('>', false),
            SpecTok::Punct('>', false),
            SpecTok::Punct(':', true),
            SpecTok::Punct(':', false),
            SpecTok::Ident("Store"@),
        ]);
        append_toks(&mut y, &tail2);
        assert(toks_view(y@) =~= spec_field_ffi_stores(fv)[i as int]);
        a.push(x);
        b.push(y);
        i = i + 1;
    }
    assert(lists_view(a@) =~= spec_field_rust_stores(fv));
    assert(lists_view(b@) =~= spec_field_ffi_stores(fv));
    (a, b)
}

pub(crate) fn without_niche_bound() -> (r: Vec<Tok>)
    ensures
        toks_view(r@) == spec_without_niche_bound(),
{
    proof {
        reveal_strlit("Type");
    }
    let mut r = path3("co3", "niche", "Ir");
    let m = vec![Tok::Punct('<', false), ident("Type"), Tok::Punct('=', false)];
    assert(toks_view(m@) =~= seq![SpecTok::Punct('<', false), SpecTok::Ident("Type"@), SpecTok::Punct('=', false)]);
    append_toks(&mut r, &m);
    append_toks(&mut r, &path3("co3", "niche", "WithoutNiche"));
    let g = vec![Tok::Punct('>', false)];
    assert(toks_view(g@) =~= seq![SpecTok::Punct('>', false)]);
    append_toks(&mut r, &g);
    r
}

fn field_bounds(fs: &Vec<StructField>, bound: &Vec<Tok>) -> (r: Vec<Vec<Tok>>)
    ensures
        lists_view(r@) == spec_field_bounds(fields_view(fs@), toks_view(bound@)),
{
    let ghost fv = fields_view(fs@);
    let mut a: Vec<Vec<Tok>> = Vec::new();
    let mut i: usize = 0;
    while i < fs.len()
        invariant
            i <= fs@.len(),
            fv == fields_view(fs@),
            a@.len() == i,
            forall|j: int| 0 <= j < i ==> toks_view((#[trigger] a@[j])@) == spec_field_bounds(fv, toks_view(bound@))[j],
        decreases fs@.len() - i,
    {
        let mut x: Vec<Tok> = Vec::new();
        append_toks(&mut x, &fs[i].ty);
        let c = vec![Tok::Punct(':', false)];
        assert(toks_view(c@) =~= seq![SpecTok::Punct(':', false)]);
        append_toks(&mut x, &c);
        append_toks(&mut x, bound);
        assert(toks_view(x@) =~= spec_field_bounds(fv, toks_view(bound@))[i as int]);
        a.push(x);
        i = i + 1;
    }
    assert(lists_view(a@) =~= spec_field_bounds(fv, toks_view(bound@)));
    a
}

fn non_local_bounds(fs: &Vec<StructField>) -> (r: Vec<Vec<Tok>>)
    ensures
        lists_view(r@) == spec_non_local_bounds(fields_view(fs@)),
{
    proof {
        reveal_strlit("for");
    }
    let ghost fv = fields_view(fs@);
    let mut a: Vec<Vec<Tok>> = Vec::new();
    let mut i: usize = 0;
    while i < fs.len()
        invariant
            i <= fs@.len(),
            fv == fields_view(fs@),
            a@.len() == i,
            forall|j: int| 0 <= j < i ==> toks_view((#[trigger] a@[j])@) == spec_non_local_bounds(fv)[j],
        decreases fs@.len() - i,
    {
        let mut x = vec![ident("for"), Tok::Punct('<', false)];
        assert(toks_view(x@) =~= seq![SpecTok::Ident("for"@), SpecTok::Punct('<', false)]);
        append_toks(&mut x, &lifetime("_dummy"));
        let g = vec![Tok::Punct('>', false)];
        assert(toks_view(g@) =~= seq![SpecTok::Punct('>', false)]);
        append_toks(&mut x, &g);
        append_toks(&mut x, &fs[i].ty);
        let c = vec![Tok::Punct(':', false)];
        assert(toks_view(c@) =~= seq![SpecTok::Punct(':', false)]);
        append_toks(&mut x, &c);
        append_toks(&mut x, &path3("co3", "out_ptr", "NonLocal"));
        assert(toks_view(x@) =~= spec_non_local_bounds(fv)[i as int]);
        a.push(x);
        i = i + 1;
    }
    assert(lists_view(a@) =~= spec_non_local_bounds(fv));
    a
}

pub(crate) fn type_item(path: Vec<Tok>) -> (r: Vec<Tok>)
    ensures
        toks_view(r@) == spec_type_item(toks_view(path@)),
{
    proof {
        reveal_strlit("type");
        reveal_strlit("Type");
    }
    let mut r = vec![ident("type"), ident("Type"), Tok::Punct('=', false)];
    assert(toks_view(r@) =~= seq![SpecTok::Ident("type"@), SpecTok::Ident("Type"@), SpecTok::Punct('=', false)]);
    append_toks(&mut r, &path);
    let s = vec![Tok::Punct(';', false)];
    assert(toks_view(s@) =~= seq![SpecTok::Punct(';', false)]);
    append_toks(&mut r, &s);
    r
}

pub(crate) fn result_read_body() -> (r: Vec<Tok>)
    ensures
        toks_view(r@) == spec_result_read_body(),
{
    proof {
        reveal_strlit("unsafe");
        reveal_strlit("fn");
        reveal_strlit("try_read_out");
        reveal_strlit("Self");
    }
    let mut b3 = out_ptr_body3();
    let ghost bv = toks_view(b3@);
    assert(bv.len() == 11);
    let last = b3.pop().unwrap();
    assert(last@ == bv.last());
    let ghost rest = toks_view(b3@);
    assert(rest =~= bv.drop_last());
    let params = b3.remove(3);
    assert(params@ == bv[3]);
    let mut r = vec![ident("unsafe"), ident("fn"), ident("try_read_out"), params];
    assert(toks_view(r@) =~= seq![SpecTok::Ident("unsafe"@), SpecTok::Ident("fn"@), SpecTok::Ident("try_read_out"@), bv[3]]);
    let ar = vec![Tok::Punct('-', true), Tok::Punct('>', false)];
    assert(toks_view(ar@) =~= spec_arrow());
    append_toks(&mut r, &ar);
    append_toks(&mut r, &path2("co3", "Result"));
    let t = vec![Tok::Punct('<', false), ident("Self"), Tok::Punct('>', false), last];
    assert(toks_view(t@) =~= seq![SpecTok::Punct('<', false), SpecTok::Ident("Self"@), SpecTok::Punct('>', false), bv.last()]);
    append_toks(&mut r, &t);
    r
}

pub(crate) fn self_c_type() -> (r: Vec<Tok>)
    ensures
        toks_view(r@) == spec_self_c_type(),
{
    proof {
        reveal_strlit("Self");
        reveal_strlit("as");
        reveal_strlit("CType");
    }
    let mut out: Vec<Tok> = vec![Tok::Punct('<', false), ident("Self"), ident("as")];
    assert(toks_view(out@) =~= seq![SpecTok::Punct('<', false), SpecTok::Ident("Self"@), SpecTok::Ident("as"@)]);
    append_toks(&mut out, &path2("co3", "ExternC"));
    let tail = vec![Tok::Punct('>', false), Tok::Punct(':', true), Tok::Punct(':', false), ident("CType")];
    assert(toks_view(tail@) =~= seq![
        SpecTok::Punct('>', false),
        SpecTok::Punct(':', true),
        SpecTok::Punct(':', false),
        SpecTok::Ident("CType"@),
    ]);
    append_toks(&mut out, &tail);
    out
}

/// `store: &'_išč mut Self::Store`, after the tokens `head`.
pub(crate) fn store_param_after(mut head: Vec<Tok>) -> (r: Vec<Tok>)
    ensures
        toks_view(r@) == toks_view(head@) + seq![SpecTok::Ident("store"@), SpecTok::Punct(':', false), SpecTok::Punct('&', false)]
            + spec_lifetime("_išč"@) + seq![
            SpecTok::Ident("mut"@),
            SpecTok::Ident("Self"@),
            SpecTok::Punct(':', true),
            SpecTok::Punct(':', false),
            SpecTok::Ident("Store"@),
        ],
{
    proof {
        reveal_strlit("store");
        reveal_strlit("mut");
        reveal_strlit("Self");
        reveal_strlit("Store");
    }
    let a = vec![ident("store"), Tok::Punct(':', false), Tok::Punct('&', false)];
    assert(toks_view(a@) =~= seq![SpecTok::Ident("store"@), SpecTok::Punct(':', false), SpecTok::Punct('&', false)]);
    append_toks(&mut head, &a);
    append_toks(&mut head, &lifetime("_išč"));
    let b = vec![ident("mut"), ident("Self"), Tok::Punct(':', true), Tok::Punct(':', false), ident("Store")];
    assert(toks_view(b@) =~= seq![
        SpecTok::Ident("mut"@),
        SpecTok::Ident("Self"@),
        SpecTok::Punct(':', true),
        SpecTok::Punct(':', false),
        SpecTok::Ident("Store"@),
    ]);
    append_toks(&mut head, &b);
    head
}

fn struct_encode(name: &str, style: FieldStyle, fs: &Vec<StructField>, ig: &Vec<Tok>, tg: &Vec<Tok>, wc: &Vec<Tok>) -> (r: Vec<Tok>)
    ensures
        toks_view(r@) == spec_struct_encode(name@, style, fields_view(fs@), toks_view(ig@), toks_view(tg@), toks_view(wc@)),
{
    proof {
        reveal_strlit("Self");
        reveal_strlit("type");
        reveal_strlit("Store");
        reveal_strlit("fn");
        reveal_strlit("encode");
        reveal_strlit("self");
        reveal_strlit("where");
        reveal_strlit("unsafe");
        reveal_strlit("decode");
        reveal_strlit("source");
    }
    let cname = reprc_name(name);
    let (rs, ffs) = field_stores(fs);
    let (rust_store, _ffi_store, init) = gen_store_types(fs.len(), rs, ffs);
    // `Encode`.
    let mut eb = vec![ident("type"), ident("Store"), Tok::Punct('=', false)];
    assert(toks_view(eb@) =~= seq![SpecTok::Ident("type"@), SpecTok::Ident("Store"@), SpecTok::Punct('=', false)]);
    append_toks(&mut eb, &rust_store);
    let h1 = vec![Tok::Punct(';', false), ident("fn"), ident("encode"), Tok::Punct('<', false)];
    assert(toks_view(h1@) =~= seq![SpecTok::Punct(';', false), SpecTok::Ident("fn"@), SpecTok::Ident("encode"@), SpecTok::Punct('<', false)]);
    append_toks(&mut eb, &h1);
    append_toks(&mut eb, &lifetime("_išč"));
    let p0 = vec![ident("self"), Tok::Punct(',', false)];
    assert(toks_view(p0@) =~= seq![SpecTok::Ident("self"@), SpecTok::Punct(',', false)]);
    let ep = store_param_after(p0);
    let ghost epv = toks_view(ep@);
    assert(epv =~= seq![SpecTok::Ident("self"@), SpecTok::Punct(',', false), SpecTok::Ident("store"@), SpecTok::Punct(':', false), SpecTok::Punct('&', false)]
        + spec_lifetime("_išč"@) + seq![
        SpecTok::Ident("mut"@),
        SpecTok::Ident("Self"@),
        SpecTok::Punct(':', true),
        SpecTok::Punct(':', false),
        SpecTok::Ident("Store"@),
    ]);
    let h2 = vec![Tok::Punct('>', false), Tok::Group(Delimiter::Parenthesis, ep)];
    assert(toks_view(h2@) =~= seq![SpecTok::Punct('>', false), SpecTok::Group(Delimiter::Parenthesis, epv)]);
    append_toks(&mut eb, &h2);
    let ar = vec![Tok::Punct('-', true), Tok::Punct('>', false)];
    assert(toks_view(ar@) =~= spec_arrow());
    append_toks(&mut eb, &ar);
    append_toks(&mut eb, &self_c_type());
    let h3 = vec![ident("where"), ident("Self"), Tok::Punct(':', false)];
    assert(toks_view(h3@) =~= seq![SpecTok::Ident("where"@), SpecTok::Ident("Self"@), SpecTok::Punct(':', false)]);
    append_toks(&mut eb, &h3);
    append_toks(&mut eb, &lifetime("_išč"));
    let mut ebody: Vec<Tok> = Vec::new();
    append_toks(&mut ebody, &init);
    append_toks(&mut ebody, &encode_impl(&cname, style, fs));
    let ghost ebv = toks_view(ebody@);
    assert(ebv =~= toks_view(init@) + spec_encode_impl(cname@, style, fields_view(fs@)));
    let g1 = vec![Tok::Group(Delimiter::Brace, ebody)];
    assert(toks_view(g1@) =~= seq![SpecTok::Group(Delimiter::Brace, ebv)]);
    append_toks(&mut eb, &g1);
    assert(toks_view(eb@) =~= spec_encode_body(name@, style, fields_view(fs@)));
    impl_block(ig, &path2("co3", "Encode"), name, tg, wc, eb)
}

fn struct_decode(name: &str, style: FieldStyle, fs: &Vec<StructField>, tg: &Vec<Tok>, wc: &Vec<Tok>, params: &Vec<Tok>) -> (r: Vec<Tok>)
    ensures
        toks_view(r@) == spec_struct_decode(name@, style, fields_view(fs@), toks_view(tg@), toks_view(wc@), toks_view(params@)),
{
    proof {
        reveal_strlit("Self");
        reveal_strlit("type");
        reveal_strlit("Store");
        reveal_strlit("fn");
        reveal_strlit("encode");
        reveal_strlit("self");
        reveal_strlit("where");
        reveal_strlit("unsafe");
        reveal_strlit("decode");
        reveal_strlit("source");
    }
    let (rs, ffs) = field_stores(fs);
    let (_rust_store, ffi_store, init) = gen_store_types(fs.len(), rs, ffs);
    let comma = vec![Tok::Punct(',', false)];
    assert(toks_view(comma@) =~= seq![SpecTok::Punct(',', false)]);
    let ar = vec![Tok::Punct('-', true), Tok::Punct('>', false)];
    assert(toks_view(ar@) =~= spec_arrow());
    // `Decode`.
    let mut dig = vec![Tok::Punct('<', false)];
    assert(toks_view(dig@) =~= seq![SpecTok::Punct('<', false)]);
    append_toks(&mut dig, &lifetime("_dšč"));
    let comma = vec![Tok::Punct(',', false)];
    assert(toks_view(comma@) =~= seq![SpecTok::Punct(',', false)]);
    append_toks(&mut dig, &comma);
    append_toks(&mut dig, params);
    let gt = vec![Tok::Punct('>', false)];
    assert(toks_view(gt@) =~= seq![SpecTok::Punct('>', false)]);
    append_toks(&mut dig, &gt);
    let mut dpath = path2("co3", "Decode");
    let lt = vec![Tok::Punct('<', false)];
    assert(toks_view(lt@) =~= seq![SpecTok::Punct('<', false)]);
    append_toks(&mut dpath, &lt);
    append_toks(&mut dpath, &lifetime("_dšč"));
    append_toks(&mut dpath, &gt);
    let mut db = vec![ident("type"), ident("Store"), Tok::Punct('=', false)];
    assert(toks_view(db@) =~= seq![SpecTok::Ident("type"@), SpecTok::Ident("Store"@), SpecTok::Punct('=', false)]);
    append_toks(&mut db, &ffi_store);
    let d1 = vec![Tok::Punct(';', false), ident("unsafe"), ident("fn"), ident("decode"), Tok::Punct('<', false)];
    assert(toks_view(d1@) =~= seq![
        SpecTok::Punct(';', false),
        SpecTok::Ident("unsafe"@),
        SpecTok::Ident("fn"@),
        SpecTok::Ident("decode"@),
        SpecTok::Punct('<', false),
    ]);
    append_toks(&mut db, &d1);
    append_toks(&mut db, &lifetime("_išč"));
    let colon = vec![Tok::Punct(':', false)];
    assert(toks_view(colon@) =~= seq![SpecTok::Punct(':', false)]);
    append_toks(&mut db, &colon);
    append_toks(&mut db, &lifetime("_dšč"));
    let mut dp = vec![ident("source"), Tok::Punct(':', false)];
    assert(toks_view(dp@) =~= seq![SpecTok::Ident("source"@), SpecTok::Punct(':', false)]);
    append_toks(&mut dp, &self_c_type());
    append_toks(&mut dp, &comma);
    let ghost dp0 = toks_view(dp@);
    let dp = store_param_after(dp);
    let ghost dpv = toks_view(dp@);
    assert(dpv =~= seq![SpecTok::Ident("source"@), SpecTok::Punct(':', false)] + spec_self_c_type() + seq![
        SpecTok::Punct(',', false),
        SpecTok::Ident("store"@),
        SpecTok::Punct(':', false),
        SpecTok::Punct('&', false),
    ] + spec_lifetime("_išč"@) + seq![
        SpecTok::Ident("mut"@),
        SpecTok::Ident("Self"@),
        SpecTok::Punct(':', true),
        SpecTok::Punct(':', false),
        SpecTok::Ident("Store"@),
    ]);
    let d2 = vec![Tok::Punct('>', false), Tok::Group(Delimiter::Parenthesis, dp)];
    assert(toks_view(d2@) =~= seq![SpecTok::Punct('>', false), SpecTok::Group(Delimiter::Parenthesis, dpv)]);
    append_toks(&mut db, &d2);
    append_toks(&mut db, &ar);
    append_toks(&mut db, &path2("co3", "Result"));
    let mut dbody: Vec<Tok> = Vec::new();
    append_toks(&mut dbody, &init);
    append_toks(&mut dbody, &decode_impl(style, fs));
    let ghost dbv = toks_view(dbody@);
    assert(dbv =~= toks_view(init@) + spec_decode_impl(style, fields_view(fs@)));
    let d3 = vec![Tok::Punct('<', false), ident("Self"), Tok::Punct('>', false), Tok::Group(Delimiter::Brace, dbody)];
    assert(toks_view(d3@) =~= seq![
        SpecTok::Punct('<', false),
        SpecTok::Ident("Self"@),
        SpecTok::Punct('>', false),
        SpecTok::Group(Delimiter::Brace, dbv),
    ]);
    append_toks(&mut db, &d3);
    assert(toks_view(db@) =~= spec_decode_body(style, fields_view(fs@)));
    impl_block(&dig, &dpath, name, tg, wc, db)
}

#[verifier::rlimit(60)]
/// What a struct without a `#[repr]` derives (see `spec_no_repr_struct`),
/// from its name, how its fields are written, its fields, the parts of its
/// generics as `split_for_impl` gives them, its parameter list, and whether
/// it is local.
pub fn derive_ffi_type_for_no_repr_struct(
    name: &str,
    style: FieldStyle,
    fs: &Vec<StructField>,
    impl_generics: &Vec<Tok>,
    ty_generics: &Vec<Tok>,
    where_clause: &Vec<Tok>,
    declared_where_clause: &Vec<Tok>,
    params: &Vec<Tok>,
    predicates: &Vec<Tok>,
    local: bool,
) -> (r: Vec<Tok>)
    ensures
        toks_view(r@) == spec_no_repr_struct(
            name@,
            style,
            fields_view(fs@),
            toks_view(impl_generics@),
            toks_view(ty_generics@),
            toks_view(where_clause@),
            toks_view(declared_where_clause@),
            toks_view(params@),
            toks_view(predicates@),
            local,
        ),
{
    proof {
        reveal_strlit("Self");
        reveal_strlit("type");
        reveal_strlit("Store");
        reveal_strlit("fn");
        reveal_strlit("encode");
        reveal_strlit("self");
        reveal_strlit("where");
        reveal_strlit("unsafe");
        reveal_strlit("decode");
        reveal_strlit("source");
        reveal_strlit("const");
        reveal_strlit("NICHE_VALUE");
        reveal_strlit("CType");
    }
    let ig = impl_generics;
    let tg = ty_generics;
    let wc = where_clause;
    let cname = reprc_name(name);
    let without = extended_where(predicates, &field_bounds(fs, &without_niche_bound()));
    let nlw = extended_where(predicates, &non_local_bounds(fs));
    // The `ReprC` equivalent, `Cloned` and `Ir`.
    let mut out = reprc_struct(name, fs, ig, tg, declared_where_clause, params, predicates);
    let e1: Vec<Tok> = Vec::new();
    assert(toks_view(e1@) =~= Seq::<SpecTok>::empty());
    append_toks(&mut out, &impl_block(ig, &path3("co3", "ir", "Cloned"), name, tg, wc, e1));
    let selfp = vec![ident("Self")];
    assert(toks_view(selfp@) =~= seq![SpecTok::Ident("Self"@)]);
    append_toks(&mut out, &impl_block(ig, &path3("co3", "ir", "Ir"), name, tg, wc, type_item(selfp)));
    // The niche families and niche.
    append_toks(&mut out, &impl_block(ig, &path3("co3", "niche", "Ir"), name, tg, &without, type_item(path3("co3", "niche", "WithoutNiche"))));
    append_toks(&mut out, &impl_block(ig, &path3("co3", "niche", "Ir"), name, tg, wc, type_item(path3("co3", "niche", "WithCustomNiche"))));
    let mut zeroed = path3("core", "mem", "zeroed");
    let e2: Vec<Tok> = Vec::new();
    assert(toks_view(e2@) =~= Seq::<SpecTok>::empty());
    let ghost z0 = toks_view(zeroed@);
    zeroed.push(Tok::Group(Delimiter::Parenthesis, e2));
    assert(toks_view(zeroed@) =~= z0 + seq![SpecTok::Group(Delimiter::Parenthesis, Seq::empty())]);
    let ghost zv = toks_view(zeroed@);
    let niche = vec![
        ident("const"),
        ident("NICHE_VALUE"),
        Tok::Punct(':', false),
        Tok::Ident(cname.clone()),
        Tok::Punct('=', false),
        ident("unsafe"),
        Tok::Group(Delimiter::Brace, zeroed),
        Tok::Punct(';', false),
    ];
    assert(toks_view(niche@) =~= seq![
        SpecTok::Ident("const"@),
        SpecTok::Ident("NICHE_VALUE"@),
        SpecTok::Punct(':', false),
        SpecTok::Ident(spec_reprc_name(name@)),
        SpecTok::Punct('=', false),
        SpecTok::Ident("unsafe"@),
        SpecTok::Group(Delimiter::Brace, zv),
        SpecTok::Punct(';', false),
    ]);
    append_toks(&mut out, &impl_block(ig, &path3("co3", "niche", "Niche"), name, tg, wc, niche));
    // `ExternC`.
    let mut ct = vec![ident("type"), ident("CType"), Tok::Punct('=', false), Tok::Ident(cname.clone())];
    assert(toks_view(ct@) =~= seq![SpecTok::Ident("type"@), SpecTok::Ident("CType"@), SpecTok::Punct('=', false), SpecTok::Ident(spec_reprc_name(name@))]);
    append_toks(&mut ct, tg);
    let semi = vec![Tok::Punct(';', false)];
    assert(toks_view(semi@) =~= seq![SpecTok::Punct(';', false)]);
    append_toks(&mut ct, &semi);
    append_toks(&mut out, &impl_block(ig, &path2("co3", "ExternC"), name, tg, wc, ct));
    append_toks(&mut out, &struct_encode(name, style, fs, ig, tg, wc));
    append_toks(&mut out, &struct_decode(name, style, fs, tg, wc, params));
    // Out pointers.
    if !local {
        let u = vec![ident("unsafe")];
        assert(toks_view(u@) =~= seq![SpecTok::Ident("unsafe"@)]);
        append_toks(&mut out, &u);
        let e3: Vec<Tok> = Vec::new();
        assert(toks_view(e3@) =~= Seq::<SpecTok>::empty());
        append_toks(&mut out, &impl_block(ig, &path3("co3", "out_ptr", "NonLocal"), name, tg, &nlw, e3));
        append_toks(&mut out, &impl_block(ig, &path3("co3", "out_ptr", "OutPtr"), name, tg, &nlw, out_ptr_body1()));
        append_toks(&mut out, &impl_block(ig, &path3("co3", "out_ptr", "OutPtrWrite"), name, tg, &nlw, out_ptr_body2()));
        append_toks(&mut out, &impl_block(ig, &path3("co3", "out_ptr", "OutPtrRead"), name, tg, &nlw, result_read_body()));
    } else {
        let ghost o = toks_view(out@);
        assert(o + Seq::<SpecTok>::empty() =~= o);
    }
    out
}


/// In the `Decode` impl of a struct without a `#[repr]`, `type Store` is made
/// of one component per field, in order, each the field type's
/// `co3::Decode<'_dšč>` store (never its `Encode` store): the tuple of them,
/// wrapped in an `Option` beyond twelve fields.
pub proof fn lemma_decode_store_components(style: FieldStyle, fs: Seq<SpecField>)
    ensures
        ({
            let comps = Seq::new(
                fs.len(),
                |i: int|
                    seq![SpecTok::Punct('<', false)] + fs[i].ty + seq![
                        SpecTok::Ident("as"@),
                        SpecTok::Ident("co3"@),
                        SpecTok::Punct(':', true),
                        SpecTok::Punct(':', false),
                        SpecTok::Ident("Decode"@),
                        SpecTok::Punct('<', false),
                        SpecTok::Punct('\'', true),
                        SpecTok::Ident("_dšč"@),
                        SpecTok::Punct('>', false),
                        SpecTok::Punct('>', false),
                        SpecTok::Punct(':', true),
                        SpecTok::Punct(':', false),
                        SpecTok::Ident("Store"@),
                    ],
            );
            let body = spec_decode_body(style, fs);
            &&& spec_field_ffi_stores(fs) == comps
            &&& body.subrange(0, 3) == seq![SpecTok::Ident("type"@), SpecTok::Ident("Store"@), SpecTok::Punct('=', false)]
            &&& fs.len() <= 12 ==> body[3] == SpecTok::Group(Delimiter::Parenthesis, spec_each_with_comma(comps))
            &&& fs.len() > 12 ==> body.subrange(3, 6) == seq![
                SpecTok::Ident("Option"@),
                SpecTok::Punct('<', false),
                SpecTok::Group(Delimiter::Parenthesis, spec_each_with_comma(comps)),
            ]
        }),
{
    let comps = Seq::new(
        fs.len(),
        |i: int|
            seq![SpecTok::Punct('<', false)] + fs[i].ty + seq![
                SpecTok::Ident("as"@),
                SpecTok::Ident("co3"@),
                SpecTok::Punct(':', true),
                SpecTok::Punct(':', false),
                SpecTok::Ident("Decode"@),
                SpecTok::Punct('<', false),
                SpecTok::Punct('\'', true),
                SpecTok::Ident("_dšč"@),
                SpecTok::Punct('>', false),
                SpecTok::Punct('>', false),
                SpecTok::Punct(':', true),
                SpecTok::Punct(':', false),
                SpecTok::Ident("Store"@),
            ],
    );
    assert forall|i: int| 0 <= i < fs.len() implies #[trigger] spec_field_ffi_stores(fs)[i] == comps[i] by {
        assert(spec_field_ffi_stores(fs)[i] =~= comps[i]);
    }
    assert(spec_field_ffi_stores(fs) =~= comps);
    let body = spec_decode_body(style, fs);
    assert(body.subrange(0, 3) =~= seq![SpecTok::Ident("type"@), SpecTok::Ident("Store"@), SpecTok::Punct('=', false)]);
    if fs.len() > 12 {
        assert(body.subrange(3, 6) =~= seq![
            SpecTok::Ident("Option"@),
            SpecTok::Punct('<', false),
            SpecTok::Group(Delimiter::Parenthesis, spec_each_with_comma(comps)),
        ]);
    }
}


/// The `Encode` store of a struct without a `#[repr]` has one component per
/// field, in order, each the field type's `co3::Encode` store.
pub proof fn lemma_encode_store_components(fs: Seq<SpecField>)
    ensures
        spec_field_rust_stores(fs) == Seq::new(
            fs.len(),
            |i: int|
                seq![SpecTok::Punct('<', false)] + fs[i].ty + seq![
                    SpecTok::Ident("as"@),
                    SpecTok::Ident("co3"@),
                    SpecTok::Punct(':', true),
                    SpecTok::Punct(':', false),
                    SpecTok::Ident("Encode"@),
                    SpecTok::Punct('>', false),
                    SpecTok::Punct(':', true),
                    SpecTok::Punct(':', false),
                    SpecTok::Ident("Store"@),
                ],
        ),
{
    let comps = Seq::new(
        fs.len(),
        |i: int|
            seq![SpecTok::Punct('<', false)] + fs[i].ty + seq![
                SpecTok::Ident("as"@),
                SpecTok::Ident("co3"@),
                SpecTok::Punct(':', true),
                SpecTok::Punct(':', false),
                SpecTok::Ident("Encode"@),
                SpecTok::Punct('>', false),
                SpecTok::Punct(':', true),
                SpecTok::Punct(':', false),
                SpecTok::Ident("Store"@),
            ],
    );
    assert forall|i: int| 0 <= i < fs.len() implies #[trigger] spec_field_rust_stores(fs)[i] == comps[i] by {
        assert(spec_field_rust_stores(fs)[i] =~= comps[i]);
    }
    assert(spec_field_rust_stores(fs) =~= comps);
}

} // verus!
