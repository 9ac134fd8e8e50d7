//! Pieces of generated code, built as token trees.
use vstd::prelude::*;
use crate::tokens::{Delimiter, SpecTok, Tok, toks_view};
use crate::preprocess::append_toks;

verus! {

/// The tokens of each part followed by a comma, one after the other.
pub open spec fn spec_each_with_comma(parts: Seq<Seq<SpecTok>>) -> Seq<SpecTok>
    decreases parts.len(),
{
    if parts.len() == 0 {
        Seq::empty()
    } else {
        spec_each_with_comma(parts.drop_last()) + parts.last() + seq![SpecTok::Punct(',', false)]
    }
}

/// The tuple type `(A, B, ...,)` of the parts.
pub open spec fn spec_tuple_of(parts: Seq<Seq<SpecTok>>) -> SpecTok {
    SpecTok::Group(Delimiter::Parenthesis, spec_each_with_comma(parts))
}

/// `Option<T>` around the tokens `t`.
pub open spec fn spec_option_of(t: Seq<SpecTok>) -> Seq<SpecTok> {
    seq![SpecTok::Ident("Option"@), SpecTok::Punct('<', false)] + t + seq![SpecTok::Punct('>', false)]
}

/// `let store = store.insert(Default::default());`
pub open spec fn spec_store_insert() -> Seq<SpecTok> {
    seq![
        SpecTok::Ident("let"@),
        SpecTok::Ident("store"@),
        SpecTok::Punct('=', false),
        SpecTok::Ident("store"@),
        SpecTok::Punct('.', false),
        SpecTok::Ident("insert"@),
        SpecTok::Group(
            Delimiter::Parenthesis,
            seq![
                SpecTok::Ident("Default"@),
                SpecTok::Punct(':', true),
                SpecTok::Punct(':', false),
                SpecTok::Ident("default"@),
                SpecTok::Group(Delimiter::Parenthesis, Seq::empty()),
            ],
        ),
        SpecTok::Punct(';', false),
    ]
}

/// The store types of a type with `count` fields and the statement that
/// prepares a store: up to twelve fields, the tuples of the fields' Rust
/// and foreign stores and nothing to prepare; more, those tuples inside an
/// `Option` and a statement that fills it in.
pub open spec fn spec_store_types(count: nat, rust: Seq<Seq<SpecTok>>, ffi: Seq<Seq<SpecTok>>) -> (
    Seq<SpecTok>,
    Seq<SpecTok>,
    Seq<SpecTok>,
) {
    if count > 12 {
        (
            spec_option_of(seq![spec_tuple_of(rust)]),
            spec_option_of(seq![spec_tuple_of(ffi)]),
            spec_store_insert(),
        )
    } else {
        (seq![spec_tuple_of(rust)], seq![spec_tuple_of(ffi)], Seq::empty())
    }
}

/// The values of a sequence of token lists.
pub open spec fn lists_view(v: Seq<Vec<Tok>>) -> Seq<Seq<SpecTok>> {
    Seq::new(v.len(), |i: int| toks_view(v[i]@))
}

pub(crate) fn ident(s: &str) -> (r: Tok)
    ensures
        r@ == SpecTok::Ident(s@),
{
    Tok::Ident(String::from_str(s))
}

/// The tuple type `(A, B, ...,)` of the parts.
fn tuple_of(parts: &Vec<Vec<Tok>>) -> (r: Tok)
    ensures
        r@ == spec_tuple_of(lists_view(parts@)),
{
    let ghost pv = lists_view(parts@);
    let mut inner: Vec<Tok> = Vec::new();
    let mut i: usize = 0;
    while i < parts.len()
        invariant
            i <= parts@.len(),
            pv == lists_view(parts@),
            toks_view(inner@) == spec_each_with_comma(pv.take(i as int)),
        decreases parts@.len() - i,
    {
        append_toks(&mut inner, &parts[i]);
        let ghost mid = toks_view(inner@);
        inner.push(Tok::Punct(',', false));
        assert(toks_view(inner@) =~= mid.push(SpecTok::Punct(',', false)));
        assert(pv.take(i + 1).drop_last() =~= pv.take(i as int));
        assert(pv.take(i + 1).last() == toks_view(parts@[i as int]@));
        i = i + 1;
    }
    assert(pv.take(parts@.len() as int) =~= pv);
    Tok::Group(Delimiter::Parenthesis, inner)
}

fn option_of(t: Tok) -> (r: Vec<Tok>)
    ensures
        toks_view(r@) == spec_option_of(seq![t@]),
{
    let r = vec![ident("Option"), Tok::Punct('<', false), t, Tok::Punct('>', false)];
    proof {
        reveal_strlit("Option");
    }
    assert(toks_view(r@) =~= spec_option_of(seq![t@]));
    r
}

/// The store types of a type with `count` fields, from the tokens of each
/// field's Rust store and foreign store, and the statement that prepares a
/// store: up to twelve fields, `(S0, S1, ...,)` and nothing; more (beyond
/// the arity for which `Default` is implemented on tuples),
/// `Option<(S0, ...,)>` and `let store = store.insert(Default::default());`.
pub fn gen_store_types(count: usize, rust_stores: Vec<Vec<Tok>>, ffi_stores: Vec<Vec<Tok>>) -> (r: (
    Vec<Tok>,
    Vec<Tok>,
    Vec<Tok>,
))
    ensures
        (toks_view(r.0@), toks_view(r.1@), toks_view(r.2@)) == spec_store_types(
            count as nat,
            lists_view(rust_stores@),
            lists_view(ffi_stores@),
        ),
{
    let rust = tuple_of(&rust_stores);
    let ffi = tuple_of(&ffi_stores);
    if count > 12 {
        proof {
            reveal_strlit("let");
            reveal_strlit("store");
            reveal_strlit("insert");
            reveal_strlit("Default");
            reveal_strlit("default");
        }
        let empty: Vec<Tok> = Vec::new();
        assert(toks_view(empty@) =~= Seq::<SpecTok>::empty());
        let call: Vec<Tok> = vec![
            ident("Default"),
            Tok::Punct(':', true),
            Tok::Punct(':', false),
            ident("default"),
            Tok::Group(Delimiter::Parenthesis, empty),
        ];
        assert(toks_view(call@) =~= seq![
            SpecTok::Ident("Default"@),
            SpecTok::Punct(':', true),
            SpecTok::Punct(':', false),
            SpecTok::Ident("default"@),
            SpecTok::Group(Delimiter::Parenthesis, Seq::empty()),
        ]);
        let ghost cv = toks_view(call@);
        let g = Tok::Group(Delimiter::Parenthesis, call);
        assert(g@ == SpecTok::Group(Delimiter::Parenthesis, cv));
        let init: Vec<Tok> = vec![
            ident("let"),
            ident("store"),
            Tok::Punct('=', false),
            ident("store"),
            Tok::Punct('.', false),
            ident("insert"),
            g,
            Tok::Punct(';', false),
        ];
        assert(toks_view(init@) =~= spec_store_insert());
        (option_of(rust), option_of(ffi), init)
    } else {
        let a = vec![rust];
        let b = vec![ffi];
        let c: Vec<Tok> = Vec::new();
        assert(toks_view(a@) =~= seq![a@[0]@]);
        assert(toks_view(b@) =~= seq![b@[0]@]);
        assert(toks_view(c@) =~= Seq::<SpecTok>::empty());
        (a, b, c)
    }
}


/// The path `a::b::c`.
pub open spec fn spec_path3(a: Seq<char>, b: Seq<char>, c: Seq<char>) -> Seq<SpecTok> {
    seq![
        SpecTok::Ident(a),
        SpecTok::Punct(':', true),
        SpecTok::Punct(':', false),
        SpecTok::Ident(b),
        SpecTok::Punct(':', true),
        SpecTok::Punct(':', false),
        SpecTok::Ident(c),
    ]
}

/// `impl<..> Trait for Name<..> where .. { body }`, with the generics as the
/// tokens that `split_for_impl` gives.
pub open spec fn spec_impl_block(
    impl_generics: Seq<SpecTok>,
    trait_path: Seq<SpecTok>,
    name: Seq<char>,
    ty_generics: Seq<SpecTok>,
    where_clause: Seq<SpecTok>,
    body: Seq<SpecTok>,
) -> Seq<SpecTok> {
    seq![SpecTok::Ident("impl"@)] + impl_generics + trait_path + seq![SpecTok::Ident("for"@), SpecTok::Ident(name)]
        + ty_generics + where_clause + seq![SpecTok::Group(Delimiter::Brace, body)]
}

/// `type Kind = path;`
pub open spec fn spec_kind_item(path: Seq<SpecTok>) -> Seq<SpecTok> {
    seq![SpecTok::Ident("type"@), SpecTok::Ident("Kind"@), SpecTok::Punct('=', false)] + path + seq![
        SpecTok::Punct(';', false),
    ]
}

/// `const NICHE_VALUE: *mut Self = core::ptr::null_mut();`
pub open spec fn spec_null_niche_item() -> Seq<SpecTok> {
    seq![
        SpecTok::Ident("const"@),
        SpecTok::Ident("NICHE_VALUE"@),
        SpecTok::Punct(':', false),
        SpecTok::Punct('*', false),
        SpecTok::Ident("mut"@),
        SpecTok::Ident("Self"@),
        SpecTok::Punct('=', false),
    ] + spec_path3("core"@, "ptr"@, "null_mut"@) + seq![
        SpecTok::Group(Delimiter::Parenthesis, Seq::empty()),
        SpecTok::Punct(';', false),
    ]
}

/// What an opaque type derives: it is its own representation family of
/// kind `Opaque`, and its niche is the null pointer.
pub open spec fn spec_opaque_item(name: Seq<char>, ig: Seq<SpecTok>, tg: Seq<SpecTok>, wc: Seq<SpecTok>) -> Seq<SpecTok> {
    spec_impl_block(ig, spec_path3("co3"@, "ir"@, "ReprFamily"@), name, tg, wc, spec_kind_item(spec_path3("co3"@, "ir"@, "Opaque"@)))
        + spec_impl_block(
        ig,
        spec_path3("co3"@, "niche"@, "NicheFamily"@),
        name,
        tg,
        wc,
        spec_kind_item(spec_path3("co3"@, "niche"@, "WithCustomNiche"@)),
    ) + spec_impl_block(ig, spec_path3("co3"@, "niche"@, "Niche"@), name, tg, wc, spec_null_niche_item())
}

pub(crate) fn path3(a: &str, b: &str, c: &str) -> (r: Vec<Tok>)
    ensures
        toks_view(r@) == spec_path3(a@, b@, c@),
{
    let r = vec![
        ident(a),
        Tok::Punct(':', true),
        Tok::Punct(':', false),
        ident(b),
        Tok::Punct(':', true),
        Tok::Punct(':', false),
        ident(c),
    ];
    assert(toks_view(r@) =~= spec_path3(a@, b@, c@));
    r
}

pub(crate) fn impl_block(
    ig: &Vec<Tok>,
    trait_path: &Vec<Tok>,
    name: &str,
    tg: &Vec<Tok>,
    wc: &Vec<Tok>,
    body: Vec<Tok>,
) -> (r: Vec<Tok>)
    ensures
        toks_view(r@) == spec_impl_block(toks_view(ig@), toks_view(trait_path@), name@, toks_view(tg@), toks_view(wc@), toks_view(body@)),
{
    proof {
        reveal_strlit("impl");
        reveal_strlit("for");
    }
    let mut out: Vec<Tok> = vec![ident("impl")];
    assert(toks_view(out@) =~= seq![SpecTok::Ident("impl"@)]);
    append_toks(&mut out, ig);
    append_toks(&mut out, trait_path);
    let ghost m1 = toks_view(out@);
    out.push(ident("for"));
    out.push(ident(name));
    assert(toks_view(out@) =~= m1 + seq![SpecTok::Ident("for"@), SpecTok::Ident(name@)]);
    append_toks(&mut out, tg);
    append_toks(&mut out, wc);
    let ghost m2 = toks_view(out@);
    let ghost bv = toks_view(body@);
    out.push(Tok::Group(Delimiter::Brace, body));
    assert(toks_view(out@) =~= m2 + seq![SpecTok::Group(Delimiter::Brace, bv)]);
    out
}

pub(crate) fn kind_item(path: Vec<Tok>) -> (r: Vec<Tok>)
    ensures
        toks_view(r@) == spec_kind_item(toks_view(path@)),
{
    proof {
        reveal_strlit("type");
        reveal_strlit("Kind");
    }
    let mut out: Vec<Tok> = vec![ident("type"), ident("Kind"), Tok::Punct('=', false)];
    assert(toks_view(out@) =~= seq![SpecTok::Ident("type"@), SpecTok::Ident("Kind"@), SpecTok::Punct('=', false)]);
    append_toks(&mut out, &path);
    let ghost m = toks_view(out@);
    out.push(Tok::Punct(';', false));
    assert(toks_view(out@) =~= m + seq![SpecTok::Punct(';', false)]);
    out
}

fn null_niche_item() -> (r: Vec<Tok>)
    ensures
        toks_view(r@) == spec_null_niche_item(),
{
    proof {
        reveal_strlit("const");
        reveal_strlit("NICHE_VALUE");
        reveal_strlit("mut");
        reveal_strlit("Self");
    }
    let mut out: Vec<Tok> = vec![
        ident("const"),
        ident("NICHE_VALUE"),
        Tok::Punct(':', false),
        Tok::Punct('*', false),
        ident("mut"),
        ident("Self"),
        Tok::Punct('=', false),
    ];
    let ghost m0 = toks_view(out@);
    assert(m0 =~= seq![
        SpecTok::Ident("const"@),
        SpecTok::Ident("NICHE_VALUE"@),
        SpecTok::Punct(':', false),
        SpecTok::Punct('*', false),
        SpecTok::Ident("mut"@),
        SpecTok::Ident("Self"@),
        SpecTok::Punct('=', false),
    ]);
    let p = path3("core", "ptr", "null_mut");
    append_toks(&mut out, &p);
    let ghost m1 = toks_view(out@);
    let empty: Vec<Tok> = Vec::new();
    assert(toks_view(empty@) =~= Seq::<SpecTok>::empty());
    out.push(Tok::Group(Delimiter::Parenthesis, empty));
    out.push(Tok::Punct(';', false));
    assert(toks_view(out@) =~= m1 + seq![
        SpecTok::Group(Delimiter::Parenthesis, Seq::empty()),
        SpecTok::Punct(';', false),
    ]);
    out
}

/// The impls an opaque type derives, from its name and the three parts of
/// its generics as `split_for_impl` gives them: `ReprFamily` of kind
/// `Opaque`, `NicheFamily` of kind `WithCustomNiche`, and `Niche` with the
/// null pointer as its niche value.
pub fn derive_opaque_item(name: &str, impl_generics: &Vec<Tok>, ty_generics: &Vec<Tok>, where_clause: &Vec<Tok>) -> (r: Vec<
    Tok,
>)
    ensures
        toks_view(r@) == spec_opaque_item(name@, toks_view(impl_generics@), toks_view(ty_generics@), toks_view(where_clause@)),
{
    let t1 = path3("co3", "ir", "ReprFamily");
    let b1 = kind_item(path3("co3", "ir", "Opaque"));
    let mut out = impl_block(impl_generics, &t1, name, ty_generics, where_clause, b1);
    let t2 = path3("co3", "niche", "NicheFamily");
    let b2 = kind_item(path3("co3", "niche", "WithCustomNiche"));
    let i2 = impl_block(impl_generics, &t2, name, ty_generics, where_clause, b2);
    append_toks(&mut out, &i2);
    let t3 = path3("co3", "niche", "Niche");
    let i3 = impl_block(impl_generics, &t3, name, ty_generics, where_clause, null_niche_item());
    append_toks(&mut out, &i3);
    out
}


/// The path `a::b`.
pub open spec fn spec_path2(a: Seq<char>, b: Seq<char>) -> Seq<SpecTok> {
    seq![SpecTok::Ident(a), SpecTok::Punct(':', true), SpecTok::Punct(':', false), SpecTok::Ident(b)]
}

/// Whether field `i` is marked as mentioning a generic parameter.
pub open spec fn flag_at(flags: Seq<bool>, i: int) -> bool {
    0 <= i < flags.len() && flags[i]
}

/// `T: co3::ExternC,` for each of the first `n` field types that mentions a
/// generic parameter, in order.
pub open spec fn spec_extern_c_bounds(tys: Seq<Seq<SpecTok>>, flags: Seq<bool>, n: int) -> Seq<SpecTok>
    decreases n,
{
    if n <= 0 || n > tys.len() {
        Seq::empty()
    } else {
        spec_extern_c_bounds(tys, flags, n - 1) + if flag_at(flags, n - 1) {
            tys[n - 1] + seq![SpecTok::Punct(':', false)] + spec_path2("co3"@, "ExternC"@) + seq![
                SpecTok::Punct(',', false),
            ]
        } else {
            Seq::empty()
        }
    }
}

/// What a type whose foreign form is `repr_c_name` derives: it is
/// `co3::ir::Cloned`, its own representation family, and `co3::ExternC`
/// with that foreign type, the last two where every field type that mentions
/// a generic parameter is `ExternC`.
pub open spec fn spec_ir_impl(
    name: Seq<char>,
    repr_c_name: Seq<char>,
    tys: Seq<Seq<SpecTok>>,
    flags: Seq<bool>,
    ig: Seq<SpecTok>,
    tg: Seq<SpecTok>,
    wc: Seq<SpecTok>,
    preds: Seq<SpecTok>,
) -> Seq<SpecTok> {
    let bounded = seq![SpecTok::Ident("where"@)] + spec_extern_c_bounds(tys, flags, tys.len() as int) + preds;
    spec_impl_block(ig, spec_path3("co3"@, "ir"@, "Cloned"@), name, tg, wc, Seq::empty()) + spec_impl_block(
        ig,
        spec_path3("co3"@, "ir"@, "ReprFamily"@),
        name,
        tg,
        bounded,
        spec_kind_item(seq![SpecTok::Ident("Self"@)]),
    ) + spec_impl_block(
        ig,
        spec_path2("co3"@, "ExternC"@),
        name,
        tg,
        bounded,
        seq![SpecTok::Ident("type"@), SpecTok::Ident("CType"@), SpecTok::Punct('=', false), SpecTok::Ident(repr_c_name)]
            + tg + seq![SpecTok::Punct(';', false)],
    )
}

pub(crate) fn path2(a: &str, b: &str) -> (r: Vec<Tok>)
    ensures
        toks_view(r@) == spec_path2(a@, b@),
{
    let r = vec![ident(a), Tok::Punct(':', true), Tok::Punct(':', false), ident(b)];
    assert(toks_view(r@) =~= spec_path2(a@, b@));
    r
}

/// `T: co3::ExternC,` for each field type that mentions a generic
/// parameter (`parameterized[i]`), in order.
pub fn gen_extern_c_bounds(fields: &Vec<Vec<Tok>>, parameterized: &Vec<bool>) -> (r: Vec<Tok>)
    ensures
        toks_view(r@) == spec_extern_c_bounds(lists_view(fields@), parameterized@, fields@.len() as int),
{
    let ghost fv = lists_view(fields@);
    let mut out: Vec<Tok> = Vec::new();
    let mut i: usize = 0;
    assert(toks_view(out@) =~= Seq::<SpecTok>::empty());
    while i < fields.len()
        invariant
            i <= fields@.len(),
            fv == lists_view(fields@),
            toks_view(out@) == spec_extern_c_bounds(fv, parameterized@, i as int),
        decreases fields@.len() - i,
    {
        let ghost before = toks_view(out@);
        if i < parameterized.len() && parameterized[i] {
            append_toks(&mut out, &fields[i]);
            assert(toks_view(fields@[i as int]@) == fv[i as int]);
            let ghost m0 = toks_view(out@);
            out.push(Tok::Punct(':', false));
            assert(toks_view(out@) =~= m0.push(SpecTok::Punct(':', false)));
            let p = path2("co3", "ExternC");
            append_toks(&mut out, &p);
            let ghost m = toks_view(out@);
            out.push(Tok::Punct(',', false));
            assert(toks_view(out@) =~= m.push(SpecTok::Punct(',', false)));
            assert(toks_view(out@) =~= before + (fv[i as int] + seq![SpecTok::Punct(':', false)] + spec_path2(
                "co3"@,
                "ExternC"@,
            ) + seq![SpecTok::Punct(',', false)]));
        } else {
            assert(before + Seq::<SpecTok>::empty() =~= before);
        }
        i = i + 1;
    }
    out
}

/// The impls that make a type with the foreign form `repr_c_name` its own
/// representation family and `ExternC`, from the tokens of its field types
/// (with whether each mentions a generic parameter) and of its generics as
/// `split_for_impl` gives them (`where_clause`, and its predicates alone).
pub fn gen_ir_impl(
    name: &str,
    repr_c_name: &str,
    fields: &Vec<Vec<Tok>>,
    parameterized: &Vec<bool>,
    impl_generics: &Vec<Tok>,
    ty_generics: &Vec<Tok>,
    where_clause: &Vec<Tok>,
    predicates: &Vec<Tok>,
) -> (r: Vec<Tok>)
    ensures
        toks_view(r@) == spec_ir_impl(
            name@,
            repr_c_name@,
            lists_view(fields@),
            parameterized@,
            toks_view(impl_generics@),
            toks_view(ty_generics@),
            toks_view(where_clause@),
            toks_view(predicates@),
        ),
{
    proof {
        reveal_strlit("where");
        reveal_strlit("Self");
        reveal_strlit("type");
        reveal_strlit("CType");
    }
    let bounds = gen_extern_c_bounds(fields, parameterized);
    let mut bounded: Vec<Tok> = vec![ident("where")];
    assert(toks_view(bounded@) =~= seq![SpecTok::Ident("where"@)]);
    append_toks(&mut bounded, &bounds);
    append_toks(&mut bounded, predicates);
    let empty: Vec<Tok> = Vec::new();
    assert(toks_view(empty@) =~= Seq::<SpecTok>::empty());
    let mut out = impl_block(impl_generics, &path3("co3", "ir", "Cloned"), name, ty_generics, where_clause, empty);
    let self_path: Vec<Tok> = vec![ident("Self")];
    assert(toks_view(self_path@) =~= seq![SpecTok::Ident("Self"@)]);
    let i2 = impl_block(impl_generics, &path3("co3", "ir", "ReprFamily"), name, ty_generics, &bounded, kind_item(self_path));
    append_toks(&mut out, &i2);
    let mut body: Vec<Tok> = vec![ident("type"), ident("CType"), Tok::Punct('=', false), ident(repr_c_name)];
    assert(toks_view(body@) =~= seq![SpecTok::Ident("type"@), SpecTok::Ident("CType"@), SpecTok::Punct('=', false), SpecTok::Ident(repr_c_name@)]);
    append_toks(&mut body, ty_generics);
    let ghost bm = toks_view(body@);
    body.push(Tok::Punct(';', false));
    assert(toks_view(body@) =~= bm + seq![SpecTok::Punct(';', false)]);
    let i3 = impl_block(impl_generics, &path2("co3", "ExternC"), name, ty_generics, &bounded, body);
    append_toks(&mut out, &i3);
    out
}



/// The body of the OutPtr impl: `type OutPtr = Self::CType;`.
pub open spec fn spec_out_ptr_body1() -> Seq<SpecTok> {
    seq![SpecTok::Ident("type"@), SpecTok::Ident("OutPtr"@), SpecTok::Punct('=', false), SpecTok::Ident("Self"@), SpecTok::Punct(':', true), SpecTok::Punct(':', false), SpecTok::Ident("CType"@), SpecTok::Punct(';', false)]
}

pub(crate) fn out_ptr_body1() -> (r: Vec<Tok>)
    ensures
        toks_view(r@) == spec_out_ptr_body1(),
{
    proof {
        reveal_strlit("CType");
        reveal_strlit("OutPtr");
        reveal_strlit("Self");
        reveal_strlit("type");
    }
    let mut out: Vec<Tok> = Vec::new();
    out.push(ident("type"));
    out.push(ident("OutPtr"));
    out.push(Tok::Punct('=', false));
    out.push(ident("Self"));
    out.push(Tok::Punct(':', true));
    out.push(Tok::Punct(':', false));
    out.push(ident("CType"));
    out.push(Tok::Punct(';', false));
    assert(toks_view(out@) =~= spec_out_ptr_body1());
    out
}

/// The body of the OutPtrWrite impl: `write_out`, which encodes the value into a fresh store and writes it
/// through the pointer.
pub open spec fn spec_out_ptr_body2() -> Seq<SpecTok> {
    seq![SpecTok::Ident("unsafe"@), SpecTok::Ident("fn"@), SpecTok::Ident("write_out"@), SpecTok::Group(Delimiter::Parenthesis, seq![SpecTok::Ident("self"@), SpecTok::Punct(',', false), SpecTok::Ident("out_ptr"@), SpecTok::Punct(':', false), SpecTok::Punct('*', false), SpecTok::Ident("mut"@), SpecTok::Ident("Self"@), SpecTok::Punct(':', true), SpecTok::Punct(':', false), SpecTok::Ident("OutPtr"@)]), SpecTok::Group(Delimiter::Brace, seq![SpecTok::Ident("let"@), SpecTok::Ident("mut"@), SpecTok::Ident("store"@), SpecTok::Punct('=', false), SpecTok::Ident("Default"@), SpecTok::Punct(':', true), SpecTok::Punct(':', false), SpecTok::Ident("default"@), SpecTok::Group(Delimiter::Parenthesis, Seq::<SpecTok>::empty()), SpecTok::Punct(';', false), SpecTok::Ident("let"@), SpecTok::Ident("encoded"@), SpecTok::Punct('=', false), SpecTok::Ident("co3"@), SpecTok::Punct(':', true), SpecTok::Punct(':', false), SpecTok::Ident("Encode"@), SpecTok::Punct(':', true), SpecTok::Punct(':', false), SpecTok::Ident("encode"@), SpecTok::Group(Delimiter::Parenthesis, seq![SpecTok::Ident("self"@), SpecTok::Punct(',', false), SpecTok::Punct('&', false), SpecTok::Ident("mut"@), SpecTok::Ident("store"@)]), SpecTok::Punct(';', false), SpecTok::Ident("unsafe"@), SpecTok::Group(Delimiter::Brace, seq![SpecTok::Ident("out_ptr"@), SpecTok::Punct('.', false), SpecTok::Ident("write"@), SpecTok::Group(Delimiter::Parenthesis, seq![SpecTok::Ident("encoded"@)]), SpecTok::Punct(';', false)])])]
}

pub(crate) fn out_ptr_body2() -> (r: Vec<Tok>)
    ensures
        toks_view(r@) == spec_out_ptr_body2(),
{
    proof {
        reveal_strlit("Default");
        reveal_strlit("Encode");
        reveal_strlit("OutPtr");
        reveal_strlit("Self");
        reveal_strlit("co3");
        reveal_strlit("default");
        reveal_strlit("encode");
        reveal_strlit("encoded");
        reveal_strlit("fn");
        reveal_strlit("let");
        reveal_strlit("mut");
        reveal_strlit("out_ptr");
        reveal_strlit("self");
        reveal_strlit("store");
        reveal_strlit("unsafe");
        reveal_strlit("write");
        reveal_strlit("write_out");
    }
    let mut out: Vec<Tok> = Vec::new();
    out.push(ident("unsafe"));
    out.push(ident("fn"));
    out.push(ident("write_out"));
    let mut g1: Vec<Tok> = Vec::new();
    g1.push(ident("self"));
    g1.push(Tok::Punct(',', false));
    g1.push(ident("out_ptr"));
    g1.push(Tok::Punct(':', false));
    g1.push(Tok::Punct('*', false));
    g1.push(ident("mut"));
    g1.push(ident("Self"));
    g1.push(Tok::Punct(':', true));
    g1.push(Tok::Punct(':', false));
    g1.push(ident("OutPtr"));
    assert(toks_view(g1@) =~= seq![SpecTok::Ident("self"@), SpecTok::Punct(',', false), SpecTok::Ident("out_ptr"@), SpecTok::Punct(':', false), SpecTok::Punct('*', false), SpecTok::Ident("mut"@), SpecTok::Ident("Self"@), SpecTok::Punct(':', true), SpecTok::Punct(':', false), SpecTok::Ident("OutPtr"@)]);
    out.push(Tok::Group(Delimiter::Parenthesis, g1));
    let mut g2: Vec<Tok> = Vec::new();
    g2.push(ident("let"));
    g2.push(ident("mut"));
    g2.push(ident("store"));
    g2.push(Tok::Punct('=', false));
    g2.push(ident("Default"));
    g2.push(Tok::Punct(':', true));
    g2.push(Tok::Punct(':', false));
    g2.push(ident("default"));
    let mut g3: Vec<Tok> = Vec::new();
    assert(toks_view(g3@) =~= Seq::<SpecTok>::empty());
    g2.push(Tok::Group(Delimiter::Parenthesis, g3));
    g2.push(Tok::Punct(';', false));
    g2.push(ident("let"));
    g2.push(ident("encoded"));
    g2.push(Tok::Punct('=', false));
    g2.push(ident("co3"));
    g2.push(Tok::Punct(':', true));
    g2.push(Tok::Punct(':', false));
    g2.push(ident("Encode"));
    g2.push(Tok::Punct(':', true));
    g2.push(Tok::Punct(':', false));
    g2.push(ident("encode"));
    let mut g4: Vec<Tok> = Vec::new();
    g4.push(ident("self"));
    g4.push(Tok::Punct(',', false));
    g4.push(Tok::Punct('&', false));
    g4.push(ident("mut"));
    g4.push(ident("store"));
    assert(toks_view(g4@) =~= seq![SpecTok::Ident("self"@), SpecTok::Punct(',', false), SpecTok::Punct('&', false), SpecTok::Ident("mut"@), SpecTok::Ident("store"@)]);
    g2.push(Tok::Group(Delimiter::Parenthesis, g4));
    g2.push(Tok::Punct(';', false));
    g2.push(ident("unsafe"));
    let mut g5: Vec<Tok> = Vec::new();
    g5.push(ident("out_ptr"));
    g5.push(Tok::Punct('.', false));
    g5.push(ident("write"));
    let mut g6: Vec<Tok> = Vec::new();
    g6.push(ident("encoded"));
    assert(toks_view(g6@) =~= seq![SpecTok::Ident("encoded"@)]);
    g5.push(Tok::Group(Delimiter::Parenthesis, g6));
    g5.push(Tok::Punct(';', false));
    assert(toks_view(g5@) =~= seq![SpecTok::Ident("out_ptr"@), SpecTok::Punct('.', false), SpecTok::Ident("write"@), SpecTok::Group(Delimiter::Parenthesis, seq![SpecTok::Ident("encoded"@)]), SpecTok::Punct(';', false)]);
    g2.push(Tok::Group(Delimiter::Brace, g5));
    assert(toks_view(g2@) =~= seq![SpecTok::Ident("let"@), SpecTok::Ident("mut"@), SpecTok::Ident("store"@), SpecTok::Punct('=', false), SpecTok::Ident("Default"@), SpecTok::Punct(':', true), SpecTok::Punct(':', false), SpecTok::Ident("default"@), SpecTok::Group(Delimiter::Parenthesis, Seq::<SpecTok>::empty()), SpecTok::Punct(';', false), SpecTok::Ident("let"@), SpecTok::Ident("encoded"@), SpecTok::Punct('=', false), SpecTok::Ident("co3"@), SpecTok::Punct(':', true), SpecTok::Punct(':', false), SpecTok::Ident("Encode"@), SpecTok::Punct(':', true), SpecTok::Punct(':', false), SpecTok::Ident("encode"@), SpecTok::Group(Delimiter::Parenthesis, seq![SpecTok::Ident("self"@), SpecTok::Punct(',', false), SpecTok::Punct('&', false), SpecTok::Ident("mut"@), SpecTok::Ident("store"@)]), SpecTok::Punct(';', false), SpecTok::Ident("unsafe"@), SpecTok::Group(Delimiter::Brace, seq![SpecTok::Ident("out_ptr"@), SpecTok::Punct('.', false), SpecTok::Ident("write"@), SpecTok::Group(Delimiter::Parenthesis, seq![SpecTok::Ident("encoded"@)]), SpecTok::Punct(';', false)])]);
    out.push(Tok::Group(Delimiter::Brace, g2));
    assert(toks_view(out@) =~= spec_out_ptr_body2());
    out
}

/// The body of the OutPtrRead impl: `try_read_out`, which decodes the value from the pointer's contents with
/// a fresh store.
pub open spec fn spec_out_ptr_body3() -> Seq<SpecTok> {
    seq![SpecTok::Ident("unsafe"@), SpecTok::Ident("fn"@), SpecTok::Ident("try_read_out"@), SpecTok::Group(Delimiter::Parenthesis, seq![SpecTok::Ident("out_ptr"@), SpecTok::Punct(':', false), SpecTok::Ident("Self"@), SpecTok::Punct(':', true), SpecTok::Punct(':', false), SpecTok::Ident("OutPtr"@)]), SpecTok::Punct('-', true), SpecTok::Punct('>', false), SpecTok::Ident("Option"@), SpecTok::Punct('<', false), SpecTok::Ident("Self"@), SpecTok::Punct('>', false), SpecTok::Group(Delimiter::Brace, seq![SpecTok::Ident("let"@), SpecTok::Ident("mut"@), SpecTok::Ident("store"@), SpecTok::Punct('=', false), SpecTok::Ident("Default"@), SpecTok::Punct(':', true), SpecTok::Punct(':', false), SpecTok::Ident("default"@), SpecTok::Group(Delimiter::Parenthesis, Seq::<SpecTok>::empty()), SpecTok::Punct(';', false), SpecTok::Ident("unsafe"@), SpecTok::Group(Delimiter::Brace, seq![SpecTok::Ident("let"@), SpecTok::Ident("store_ref"@), SpecTok::Punct('=', false), SpecTok::Punct('&', false), SpecTok::Ident("mut"@), SpecTok::Punct('*', false), SpecTok::Group(Delimiter::Parenthesis, seq![SpecTok::Punct('&', false), SpecTok::Ident("mut"@), SpecTok::Ident("store"@), SpecTok::Ident("as"@), SpecTok::Punct('*', false), SpecTok::Ident("mut"@), SpecTok::Ident("_"@)]), SpecTok::Punct(';', false), SpecTok::Ident("co3"@), SpecTok::Punct(':', true), SpecTok::Punct(':', false), SpecTok::Ident("Decode"@), SpecTok::Punct(':', true), SpecTok::Punct(':', false), SpecTok::Ident("decode"@), SpecTok::Group(Delimiter::Parenthesis, seq![SpecTok::Ident("out_ptr"@), SpecTok::Punct(',', false), SpecTok::Ident("store_ref"@)])])])]
}

pub(crate) fn out_ptr_body3() -> (r: Vec<Tok>)
    ensures
        toks_view(r@) == spec_out_ptr_body3(),
{
    proof {
        reveal_strlit("Decode");
        reveal_strlit("Default");
        reveal_strlit("Option");
        reveal_strlit("OutPtr");
        reveal_strlit("Self");
        reveal_strlit("_");
        reveal_strlit("as");
        reveal_strlit("co3");
        reveal_strlit("decode");
        reveal_strlit("default");
        reveal_strlit("fn");
        reveal_strlit("let");
        reveal_strlit("mut");
        reveal_strlit("out_ptr");
        reveal_strlit("store");
        reveal_strlit("store_ref");
        reveal_strlit("try_read_out");
        reveal_strlit("unsafe");
    }
    let mut out: Vec<Tok> = Vec::new();
    out.push(ident("unsafe"));
    out.push(ident("fn"));
    out.push(ident("try_read_out"));
    let mut g7: Vec<Tok> = Vec::new();
    g7.push(ident("out_ptr"));
    g7.push(Tok::Punct(':', false));
    g7.push(ident("Self"));
    g7.push(Tok::Punct(':', true));
    g7.push(Tok::Punct(':', false));
    g7.push(ident("OutPtr"));
    assert(toks_view(g7@) =~= seq![SpecTok::Ident("out_ptr"@), SpecTok::Punct(':', false), SpecTok::Ident("Self"@), SpecTok::Punct(':', true), SpecTok::Punct(':', false), SpecTok::Ident("OutPtr"@)]);
    out.push(Tok::Group(Delimiter::Parenthesis, g7));
    out.push(Tok::Punct('-', true));
    out.push(Tok::Punct('>', false));
    out.push(ident("Option"));
    out.push(Tok::Punct('<', false));
    out.push(ident("Self"));
    out.push(Tok::Punct('>', false));
    let mut g8: Vec<Tok> = Vec::new();
    g8.push(ident("let"));
    g8.push(ident("mut"));
    g8.push(ident("store"));
    g8.push(Tok::Punct('=', false));
    g8.push(ident("Default"));
    g8.push(Tok::Punct(':', true));
    g8.push(Tok::Punct(':', false));
    g8.push(ident("default"));
    let mut g9: Vec<Tok> = Vec::new();
    assert(toks_view(g9@) =~= Seq::<SpecTok>::empty());
    g8.push(Tok::Group(Delimiter::Parenthesis, g9));
    g8.push(Tok::Punct(';', false));
    g8.push(ident("unsafe"));
    let mut g10: Vec<Tok> = Vec::new();
    g10.push(ident("let"));
    g10.push(ident("store_ref"));
    g10.push(Tok::Punct('=', false));
    g10.push(Tok::Punct('&', false));
    g10.push(ident("mut"));
    g10.push(Tok::Punct('*', false));
    let mut g11: Vec<Tok> = Vec::new();
    g11.push(Tok::Punct('&', false));
    g11.push(ident("mut"));
    g11.push(ident("store"));
    g11.push(ident("as"));
    g11.push(Tok::Punct('*', false));
    g11.push(ident("mut"));
    g11.push(ident("_"));
    assert(toks_view(g11@) =~= seq![SpecTok::Punct('&', false), SpecTok::Ident("mut"@), SpecTok::Ident("store"@), SpecTok::Ident("as"@), SpecTok::Punct('*', false), SpecTok::Ident("mut"@), SpecTok::Ident("_"@)]);
    g10.push(Tok::Group(Delimiter::Parenthesis, g11));
    g10.push(Tok::Punct(';', false));
    g10.push(ident("co3"));
    g10.push(Tok::Punct(':', true));
    g10.push(Tok::Punct(':', false));
    g10.push(ident("Decode"));
    g10.push(Tok::Punct(':', true));
    g10.push(Tok::Punct(':', false));
    g10.push(ident("decode"));
    let mut g12: Vec<Tok> = Vec::new();
    g12.push(ident("out_ptr"));
    g12.push(Tok::Punct(',', false));
    g12.push(ident("store_ref"));
    assert(toks_view(g12@) =~= seq![SpecTok::Ident("out_ptr"@), SpecTok::Punct(',', false), SpecTok::Ident("store_ref"@)]);
    g10.push(Tok::Group(Delimiter::Parenthesis, g12));
    assert(toks_view(g10@) =~= seq![SpecTok::Ident("let"@), SpecTok::Ident("store_ref"@), SpecTok::Punct('=', false), SpecTok::Punct('&', false), SpecTok::Ident("mut"@), SpecTok::Punct('*', false), SpecTok::Group(Delimiter::Parenthesis, seq![SpecTok::Punct('&', false), SpecTok::Ident("mut"@), SpecTok::Ident("store"@), SpecTok::Ident("as"@), SpecTok::Punct('*', false), SpecTok::Ident("mut"@), SpecTok::Ident("_"@)]), SpecTok::Punct(';', false), SpecTok::Ident("co3"@), SpecTok::Punct(':', true), SpecTok::Punct(':', false), SpecTok::Ident("Decode"@), SpecTok::Punct(':', true), SpecTok::Punct(':', false), SpecTok::Ident("decode"@), SpecTok::Group(Delimiter::Parenthesis, seq![SpecTok::Ident("out_ptr"@), SpecTok::Punct(',', false), SpecTok::Ident("store_ref"@)])]);
    g8.push(Tok::Group(Delimiter::Brace, g10));
    assert(toks_view(g8@) =~= seq![SpecTok::Ident("let"@), SpecTok::Ident("mut"@), SpecTok::Ident("store"@), SpecTok::Punct('=', false), SpecTok::Ident("Default"@), SpecTok::Punct(':', true), SpecTok::Punct(':', false), SpecTok::Ident("default"@), SpecTok::Group(Delimiter::Parenthesis, Seq::<SpecTok>::empty()), SpecTok::Punct(';', false), SpecTok::Ident("unsafe"@), SpecTok::Group(Delimiter::Brace, seq![SpecTok::Ident("let"@), SpecTok::Ident("store_ref"@), SpecTok::Punct('=', false), SpecTok::Punct('&', false), SpecTok::Ident("mut"@), SpecTok::Punct('*', false), SpecTok::Group(Delimiter::Parenthesis, seq![SpecTok::Punct('&', false), SpecTok::Ident("mut"@), SpecTok::Ident("store"@), SpecTok::Ident("as"@), SpecTok::Punct('*', false), SpecTok::Ident("mut"@), SpecTok::Ident("_"@)]), SpecTok::Punct(';', false), SpecTok::Ident("co3"@), SpecTok::Punct(':', true), SpecTok::Punct(':', false), SpecTok::Ident("Decode"@), SpecTok::Punct(':', true), SpecTok::Punct(':', false), SpecTok::Ident("decode"@), SpecTok::Group(Delimiter::Parenthesis, seq![SpecTok::Ident("out_ptr"@), SpecTok::Punct(',', false), SpecTok::Ident("store_ref"@)])])]);
    out.push(Tok::Group(Delimiter::Brace, g8));
    assert(toks_view(out@) =~= spec_out_ptr_body3());
    out
}

/// `for<'_dummy>`, where no field type mentions a generic parameter.
pub open spec fn spec_for_dummy(unparameterized: bool) -> Seq<SpecTok> {
    if unparameterized {
        seq![
            SpecTok::Ident("for"@),
            SpecTok::Punct('<', false),
            SpecTok::Punct('\'', true),
            SpecTok::Ident("_dummy"@),
            SpecTok::Punct('>', false),
        ]
    } else {
        Seq::empty()
    }
}

/// `where [for<'_dummy>] Self: co3::out_ptr::NonLocal, preds`
pub open spec fn spec_non_local_where(unparameterized: bool, preds: Seq<SpecTok>) -> Seq<SpecTok> {
    seq![SpecTok::Ident("where"@)] + spec_for_dummy(unparameterized) + seq![SpecTok::Ident("Self"@), SpecTok::Punct(':', false)]
        + spec_path3("co3"@, "out_ptr"@, "NonLocal"@) + seq![SpecTok::Punct(',', false)] + preds
}

/// The impls through which a non-local type is written to and read from an
/// out pointer: `OutPtr` (its foreign type), `OutPtrWrite` and `OutPtrRead`,
/// each where the type is `NonLocal` (for every lifetime, where no field
/// type mentions a generic parameter) and its own predicates hold.
pub open spec fn spec_out_ptr_impls(
    name: Seq<char>,
    ig: Seq<SpecTok>,
    tg: Seq<SpecTok>,
    preds: Seq<SpecTok>,
    unparameterized: bool,
) -> Seq<SpecTok> {
    let w = spec_non_local_where(unparameterized, preds);
    spec_impl_block(ig, spec_path3("co3"@, "out_ptr"@, "OutPtr"@), name, tg, w, spec_out_ptr_body1())
        + spec_impl_block(ig, spec_path3("co3"@, "out_ptr"@, "OutPtrWrite"@), name, tg, w, spec_out_ptr_body2())
        + spec_impl_block(ig, spec_path3("co3"@, "out_ptr"@, "OutPtrRead"@), name, tg, w, spec_out_ptr_body3())
}

fn non_local_where(unparameterized: bool, predicates: &Vec<Tok>) -> (r: Vec<Tok>)
    ensures
        toks_view(r@) == spec_non_local_where(unparameterized, toks_view(predicates@)),
{
    proof {
        reveal_strlit("where");
        reveal_strlit("for");
        reveal_strlit("_dummy");
        reveal_strlit("Self");
    }
    let mut out: Vec<Tok> = vec![ident("where")];
    assert(toks_view(out@) =~= seq![SpecTok::Ident("where"@)]);
    let ghost m0 = toks_view(out@);
    if unparameterized {
        out.push(ident("for"));
        out.push(Tok::Punct('<', false));
        out.push(Tok::Punct('\'', true));
        out.push(ident("_dummy"));
        out.push(Tok::Punct('>', false));
    }
    assert(toks_view(out@) =~= m0 + spec_for_dummy(unparameterized));
    let ghost m1 = toks_view(out@);
    out.push(ident("Self"));
    out.push(Tok::Punct(':', false));
    assert(toks_view(out@) =~= m1 + seq![SpecTok::Ident("Self"@), SpecTok::Punct(':', false)]);
    let p = path3("co3", "out_ptr", "NonLocal");
    append_toks(&mut out, &p);
    let ghost m2 = toks_view(out@);
    out.push(Tok::Punct(',', false));
    assert(toks_view(out@) =~= m2 + seq![SpecTok::Punct(',', false)]);
    append_toks(&mut out, predicates);
    out
}

/// The impls through which a non-local type is written to and read from an
/// out pointer, from its name, the parts of its generics as `split_for_impl`
/// gives them (the where clause's predicates alone), and whether none of its
/// field types mentions a generic parameter.
pub fn gen_out_ptr_impls(
    name: &str,
    impl_generics: &Vec<Tok>,
    ty_generics: &Vec<Tok>,
    predicates: &Vec<Tok>,
    unparameterized: bool,
) -> (r: Vec<Tok>)
    ensures
        toks_view(r@) == spec_out_ptr_impls(
            name@,
            toks_view(impl_generics@),
            toks_view(ty_generics@),
            toks_view(predicates@),
            unparameterized,
        ),
{
    let w = non_local_where(unparameterized, predicates);
    let mut out = impl_block(impl_generics, &path3("co3", "out_ptr", "OutPtr"), name, ty_generics, &w, out_ptr_body1());
    let i2 = impl_block(impl_generics, &path3("co3", "out_ptr", "OutPtrWrite"), name, ty_generics, &w, out_ptr_body2());
    append_toks(&mut out, &i2);
    let i3 = impl_block(impl_generics, &path3("co3", "out_ptr", "OutPtrRead"), name, ty_generics, &w, out_ptr_body3());
    append_toks(&mut out, &i3);
    out
}

} // verus!
