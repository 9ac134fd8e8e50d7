//! The bounds that a dispatch wrapper's signature gains: for each type
//! dispatched at run time, that it is tagged and that its tag kind encodes
//! as its id representation; for each argument unpacked into one part or,
//! where the unpack mentions a parameter, into two, how it unpacks and that
//! its parts cross the ABI; for each argument whose type mentions a
//! dispatched or erased parameter, how it encodes, by value or borrowed;
//! and for a return type that mentions one, that it decodes.
use vstd::prelude::*;
use crate::codegen::{ident, lists_view};
use crate::enum_codegen::spec_lifetime;
use crate::preprocess::append_toks;
use crate::struct_codegen::lifetime;
use crate::tokens::{SpecTok, Tok, toks_view};

verus! {

/// The two parts of an argument unpacked into a pair, where the unpack
/// mentions a parameter: each declared part (`None` where it is `_`), the
/// parts as the argument's own type gives them, and the parts that cross
/// the ABI.
#[derive(Debug, PartialEq, Eq)]
pub struct UnpackPair {
    pub part1: Option<Vec<Tok>>,
    pub part2: Option<Vec<Tok>>,
    pub source1: Vec<Tok>,
    pub source2: Vec<Tok>,
    pub abi1: Vec<Tok>,
    pub abi2: Vec<Tok>,
}

/// What the bounds depend on of one typed argument: its type, whether it is
/// passed by value, the part it unpacks into where it unpacks into one, its
/// pair where it unpacks into two and mentions a parameter, whether it is a
/// tag id, whether its type mentions a dispatched or erased parameter, and
/// whether it is encoded softly.
#[derive(Debug, PartialEq, Eq)]
pub struct WrapperArg {
    pub ty: Vec<Tok>,
    pub by_value: bool,
    pub unpack_target: Option<Vec<Tok>>,
    pub unpack_pair: Option<UnpackPair>,
    pub tag_id: bool,
    pub mentions: bool,
    pub soft: bool,
}

/// The value of an unpack pair.
pub struct SpecUnpackPair {
    pub part1: Option<Seq<SpecTok>>,
    pub part2: Option<Seq<SpecTok>>,
    pub source1: Seq<SpecTok>,
    pub source2: Seq<SpecTok>,
    pub abi1: Seq<SpecTok>,
    pub abi2: Seq<SpecTok>,
}

/// The value of a wrapper argument.
pub struct SpecWrapperArg {
    pub ty: Seq<SpecTok>,
    pub by_value: bool,
    pub unpack_target: Option<Seq<SpecTok>>,
    pub unpack_pair: Option<SpecUnpackPair>,
    pub tag_id: bool,
    pub mentions: bool,
    pub soft: bool,
}

pub open spec fn opt_toks_view(o: Option<Vec<Tok>>) -> Option<Seq<SpecTok>> {
    match o {
        Some(t) => Some(toks_view(t@)),
        None => None,
    }
}

impl View for UnpackPair {
    type V = SpecUnpackPair;

    open spec fn view(&self) -> SpecUnpackPair {
        SpecUnpackPair {
            part1: opt_toks_view(self.part1),
            part2: opt_toks_view(self.part2),
            source1: toks_view(self.source1@),
            source2: toks_view(self.source2@),
            abi1: toks_view(self.abi1@),
            abi2: toks_view(self.abi2@),
        }
    }
}

impl View for WrapperArg {
    type V = SpecWrapperArg;

    open spec fn view(&self) -> SpecWrapperArg {
        SpecWrapperArg {
            ty: toks_view(self.ty@),
            by_value: self.by_value,
            unpack_target: opt_toks_view(self.unpack_target),
            unpack_pair: match self.unpack_pair {
                Some(p) => Some(p@),
                None => None,
            },
            tag_id: self.tag_id,
            mentions: self.mentions,
            soft: self.soft,
        }
    }
}

/// The values of a sequence of wrapper arguments.
pub open spec fn wrapper_args_view(s: Seq<WrapperArg>) -> Seq<SpecWrapperArg> {
    Seq::new(s.len(), |i: int| s[i]@)
}

/// The values of a sequence of dispatched types: each one's name and id
/// representation.
pub open spec fn dispatch_tys_view(s: Seq<(String, Vec<Tok>)>) -> Seq<(Seq<char>, Seq<SpecTok>)> {
    Seq::new(s.len(), |i: int| (s[i].0@, toks_view(s[i].1@)))
}

// ---------------------------------------------------------------------------
// The pieces of the bounds.

/// `::`
pub open spec fn spec_sep() -> Seq<SpecTok> {
    seq![SpecTok::Punct(':', true), SpecTok::Punct(':', false)]
}

/// `co3::a`
pub open spec fn spec_cp1(co3: Seq<SpecTok>, a: Seq<char>) -> Seq<SpecTok> {
    co3 + spec_sep() + seq![SpecTok::Ident(a)]
}

/// `co3::a::b`
pub open spec fn spec_cp2(co3: Seq<SpecTok>, a: Seq<char>, b: Seq<char>) -> Seq<SpecTok> {
    co3 + spec_sep() + seq![SpecTok::Ident(a)] + spec_sep() + seq![SpecTok::Ident(b)]
}

/// `<t as tr>::assoc`
pub open spec fn spec_qualified(t: Seq<SpecTok>, tr: Seq<SpecTok>, assoc: Seq<char>) -> Seq<SpecTok> {
    seq![SpecTok::Punct('<', false)] + t + seq![SpecTok::Ident("as"@)] + tr + seq![SpecTok::Punct('>', false)] + spec_sep()
        + seq![SpecTok::Ident(assoc)]
}

/// `t: b`
pub open spec fn spec_bounded(t: Seq<SpecTok>, b: Seq<SpecTok>) -> Seq<SpecTok> {
    t + seq![SpecTok::Punct(':', false)] + b
}

/// `co3::CFnArg<abi>`
pub open spec fn spec_cfnarg(co3: Seq<SpecTok>, abi: Seq<SpecTok>) -> Seq<SpecTok> {
    spec_cp1(co3, "CFnArg"@) + seq![SpecTok::Punct('<', false)] + abi + seq![SpecTok::Punct('>', false)]
}

/// `<t as co3::ExternC>::CType`
pub open spec fn spec_ctype_of(co3: Seq<SpecTok>, t: Seq<SpecTok>) -> Seq<SpecTok> {
    spec_qualified(t, spec_cp1(co3, "ExternC"@), "CType"@)
}

/// `for<'lt> <a as co3::borrow::Borrow>::Borrowed<'lt>`
pub open spec fn spec_hr_borrowed(co3: Seq<SpecTok>, lt: Seq<char>, a: Seq<SpecTok>) -> Seq<SpecTok> {
    seq![SpecTok::Ident("for"@), SpecTok::Punct('<', false)] + spec_lifetime(lt) + seq![SpecTok::Punct('>', false)]
        + spec_qualified(a, spec_cp2(co3, "borrow"@, "Borrow"@), "Borrowed"@) + seq![SpecTok::Punct('<', false)]
        + spec_lifetime(lt) + seq![SpecTok::Punct('>', false)]
}

/// That the argument unpacks as `tr`: its type does where it is passed by
/// value, else what it borrows as, for any lifetime.
pub open spec fn spec_unpack_bound(co3: Seq<SpecTok>, a: SpecWrapperArg, tr: Seq<SpecTok>) -> Seq<SpecTok> {
    if a.by_value {
        spec_bounded(a.ty, tr)
    } else {
        spec_bounded(spec_hr_borrowed(co3, "__co3_unpack"@, a.ty), tr)
    }
}

/// The bounds of a dispatched type: it is tagged, and its tag kind encodes
/// as its id representation with an empty store.
pub open spec fn spec_dispatch_ty_bounds(co3: Seq<SpecTok>, name: Seq<char>, id_repr: Seq<SpecTok>) -> Seq<Seq<SpecTok>> {
    seq![
        spec_bounded(seq![SpecTok::Ident(name)], spec_cp2(co3, "tag"@, "Tagged"@)),
        spec_bounded(
            spec_qualified(seq![SpecTok::Ident(name)], spec_cp2(co3, "tag"@, "TagFamily"@), "Kind"@),
            spec_cp1(co3, "Encode"@) + seq![SpecTok::Punct('<', false), SpecTok::Ident("CType"@), SpecTok::Punct('=', false)]
                + id_repr + seq![SpecTok::Punct(',', false), SpecTok::Ident("Store"@), SpecTok::Punct(':', false)]
                + spec_cp2(co3, "stored"@, "EmptyStore"@) + seq![SpecTok::Punct('>', false)],
        ),
    ]
}

/// The bounds of an argument unpacked into one part `t`.
pub open spec fn spec_single_unpack_bounds(co3: Seq<SpecTok>, abi: Seq<SpecTok>, a: SpecWrapperArg, t: Seq<SpecTok>) -> Seq<Seq<SpecTok>> {
    let target = spec_ctype_of(co3, t);
    let tr = spec_cp2(co3, "slice"@, "Unpack"@) + seq![SpecTok::Punct('<', false)] + target + seq![SpecTok::Punct('>', false)];
    seq![spec_unpack_bound(co3, a, tr), spec_bounded(t, spec_cp1(co3, "ExternC"@)), spec_bounded(target, spec_cfnarg(co3, abi))]
}

/// The bounds of one declared part of a pair: that the part as the argument
/// gives it crosses the ABI where the part is `_`, else that the declared
/// part is `ExternC` and its C type crosses the ABI.
pub open spec fn spec_part_bounds(co3: Seq<SpecTok>, abi: Seq<SpecTok>, part: Option<Seq<SpecTok>>, source: Seq<SpecTok>) -> Seq<Seq<SpecTok>> {
    match part {
        None => seq![spec_bounded(source, spec_cfnarg(co3, abi))],
        Some(p) => seq![spec_bounded(p, spec_cp1(co3, "ExternC"@)), spec_bounded(spec_ctype_of(co3, p), spec_cfnarg(co3, abi))],
    }
}

/// The bounds of an argument unpacked into a pair that mentions a parameter.
pub open spec fn spec_pair_bounds(co3: Seq<SpecTok>, abi: Seq<SpecTok>, a: SpecWrapperArg, p: SpecUnpackPair) -> Seq<Seq<SpecTok>> {
    let tr = spec_cp2(co3, "slice"@, "Unpack2"@) + seq![SpecTok::Punct('<', false)] + p.source1 + seq![SpecTok::Punct(',', false)]
        + p.source2 + seq![SpecTok::Punct('>', false)];
    spec_part_bounds(co3, abi, p.part1, p.source1) + spec_part_bounds(co3, abi, p.part2, p.source2) + seq![
        spec_unpack_bound(co3, a, tr),
        spec_bounded(p.abi1, spec_cfnarg(co3, abi)),
        spec_bounded(p.abi2, spec_cfnarg(co3, abi)),
    ]
}

/// `co3::stored::EmptyStore`
pub open spec fn spec_empty_store(co3: Seq<SpecTok>) -> Seq<SpecTok> {
    spec_cp2(co3, "stored"@, "EmptyStore"@)
}

/// The bounds of how an argument encodes: by value, as `Encode` (with an
/// empty store unless it is soft); borrowed, as `ExternC + Borrow` whose C
/// type casts to a sized constant form, and whose borrow, for any lifetime,
/// encodes as that form (with an empty store unless it is soft).
pub open spec fn spec_encode_bounds(co3: Seq<SpecTok>, a: SpecWrapperArg) -> Seq<Seq<SpecTok>> {
    let store = seq![SpecTok::Ident("Store"@), SpecTok::Punct(':', false)] + spec_empty_store(co3);
    if a.by_value {
        seq![
            spec_bounded(
                a.ty,
                spec_cp1(co3, "Encode"@) + if a.soft {
                    Seq::empty()
                } else {
                    seq![SpecTok::Punct('<', false)] + store + seq![SpecTok::Punct('>', false)]
                },
            ),
        ]
    } else {
        let as_const = spec_qualified(spec_ctype_of(co3, a.ty), spec_cp2(co3, "borrow"@, "BorrowCast"@), "AsConst"@);
        seq![
            spec_bounded(a.ty, spec_cp1(co3, "ExternC"@) + seq![SpecTok::Punct('+', false)] + spec_cp2(co3, "borrow"@, "Borrow"@)),
            spec_bounded(
                spec_ctype_of(co3, a.ty),
                spec_cp2(co3, "borrow"@, "BorrowCast"@) + seq![
                    SpecTok::Punct('<', false),
                    SpecTok::Ident("AsConst"@),
                    SpecTok::Punct(':', false),
                    SpecTok::Ident("Sized"@),
                    SpecTok::Punct('>', false),
                ],
            ),
            spec_bounded(
                spec_hr_borrowed(co3, "__co3_borrow"@, a.ty),
                spec_cp1(co3, "Encode"@) + seq![SpecTok::Punct('<', false), SpecTok::Ident("CType"@), SpecTok::Punct('=', false)]
                    + as_const + seq![SpecTok::Punct(',', false)] + if a.soft {
                    Seq::empty()
                } else {
                    store + seq![SpecTok::Punct(',', false)]
                } + seq![SpecTok::Punct('>', false)],
            ),
        ]
    }
}

/// All the bounds of one argument, in order.
pub open spec fn spec_arg_bounds(co3: Seq<SpecTok>, abi: Seq<SpecTok>, a: SpecWrapperArg) -> Seq<Seq<SpecTok>> {
    (match a.unpack_target {
        Some(t) => spec_single_unpack_bounds(co3, abi, a, t),
        None => Seq::empty(),
    }) + (match a.unpack_pair {
        Some(p) => spec_pair_bounds(co3, abi, a, p),
        None => Seq::empty(),
    }) + if !a.tag_id && (a.mentions || a.unpack_pair is Some) {
        spec_encode_bounds(co3, a)
    } else {
        Seq::empty()
    }
}

/// The bounds of the first `n` dispatched types.
pub open spec fn spec_dispatch_tys_bounds(co3: Seq<SpecTok>, ds: Seq<(Seq<char>, Seq<SpecTok>)>, n: int) -> Seq<Seq<SpecTok>>
    decreases n,
{
    if n <= 0 || n > ds.len() {
        Seq::empty()
    } else {
        spec_dispatch_tys_bounds(co3, ds, n - 1) + spec_dispatch_ty_bounds(co3, ds[n - 1].0, ds[n - 1].1)
    }
}

/// The bounds of the first `n` arguments.
pub open spec fn spec_args_bounds(co3: Seq<SpecTok>, abi: Seq<SpecTok>, args: Seq<SpecWrapperArg>, n: int) -> Seq<Seq<SpecTok>>
    decreases n,
{
    if n <= 0 || n > args.len() {
        Seq::empty()
    } else {
        spec_args_bounds(co3, abi, args, n - 1) + spec_arg_bounds(co3, abi, args[n - 1])
    }
}

/// `for<'a> out: co3::Decode<'a, Store: co3::stored::EmptyStore>`
pub open spec fn spec_output_bound(co3: Seq<SpecTok>, out: Seq<SpecTok>) -> Seq<SpecTok> {
    seq![SpecTok::Ident("for"@), SpecTok::Punct('<', false)] + spec_lifetime("a"@) + seq![SpecTok::Punct('>', false)]
        + spec_bounded(
        out,
        spec_cp1(co3, "Decode"@) + seq![SpecTok::Punct('<', false)] + spec_lifetime("a"@) + seq![
            SpecTok::Punct(',', false),
            SpecTok::Ident("Store"@),
            SpecTok::Punct(':', false),
        ] + spec_empty_store(co3) + seq![SpecTok::Punct('>', false)],
    )
}

/// The predicates that a dispatch wrapper's where clause gains, in order:
/// those of the dispatched types, of the arguments, and of a return type
/// that mentions a dispatched or erased parameter.
pub open spec fn spec_dispatch_wrapper_bounds(
    co3: Seq<SpecTok>,
    abi: Seq<SpecTok>,
    ds: Seq<(Seq<char>, Seq<SpecTok>)>,
    args: Seq<SpecWrapperArg>,
    output: Option<Seq<SpecTok>>,
) -> Seq<Seq<SpecTok>> {
    spec_dispatch_tys_bounds(co3, ds, ds.len() as int) + spec_args_bounds(co3, abi, args, args.len() as int) + match output {
        Some(o) => seq![spec_output_bound(co3, o)],
        None => Seq::empty(),
    }
}

// ---------------------------------------------------------------------------
// Building the bounds.

fn copy_of(v: &Vec<Tok>) -> (r: Vec<Tok>)
    ensures
        toks_view(r@) == toks_view(v@),
{
    let mut r: Vec<Tok> = Vec::new();
    assert(toks_view(r@) =~= Seq::<SpecTok>::empty());
    append_toks(&mut r, v);
    assert(toks_view(r@) =~= toks_view(v@));
    r
}

fn one(t: Tok) -> (r: Vec<Tok>)
    ensures
        toks_view(r@) == seq![t@],
{
    let r = vec![t];
    assert(toks_view(r@) =~= seq![r@[0]@]);
    r
}

fn sep() -> (r: Vec<Tok>)
    ensures
        toks_view(r@) == spec_sep(),
{
    let r = vec![Tok::Punct(':', true), Tok::Punct(':', false)];
    assert(toks_view(r@) =~= spec_sep());
    r
}

fn cp1(co3: &Vec<Tok>, a: &str) -> (r: Vec<Tok>)
    ensures
        toks_view(r@) == spec_cp1(toks_view(co3@), a@),
{
    let mut r = copy_of(co3);
    append_toks(&mut r, &sep());
    append_toks(&mut r, &one(ident(a)));
    r
}

fn cp2(co3: &Vec<Tok>, a: &str, b: &str) -> (r: Vec<Tok>)
    ensures
        toks_view(r@) == spec_cp2(toks_view(co3@), a@, b@),
{
    let mut r = cp1(co3, a);
    append_toks(&mut r, &sep());
    append_toks(&mut r, &one(ident(b)));
    r
}

fn qualified(t: &Vec<Tok>, tr: &Vec<Tok>, assoc: &str) -> (r: Vec<Tok>)
    ensures
        toks_view(r@) == spec_qualified(toks_view(t@), toks_view(tr@), assoc@),
{
    proof {
        reveal_strlit("as");
    }
    let mut r = one(Tok::Punct('<', false));
    append_toks(&mut r, t);
    append_toks(&mut r, &one(ident("as")));
    append_toks(&mut r, tr);
    append_toks(&mut r, &one(Tok::Punct('>', false)));
    append_toks(&mut r, &sep());
    append_toks(&mut r, &one(ident(assoc)));
    r
}

fn bounded(t: &Vec<Tok>, b: &Vec<Tok>) -> (r: Vec<Tok>)
    ensures
        toks_view(r@) == spec_bounded(toks_view(t@), toks_view(b@)),
{
    let mut r = copy_of(t);
    append_toks(&mut r, &one(Tok::Punct(':', false)));
    append_toks(&mut r, b);
    r
}

fn cfnarg(co3: &Vec<Tok>, abi: &Vec<Tok>) -> (r: Vec<Tok>)
    ensures
        toks_view(r@) == spec_cfnarg(toks_view(co3@), toks_view(abi@)),
{
    let mut r = cp1(co3, "CFnArg");
    append_toks(&mut r, &one(Tok::Punct('<', false)));
    append_toks(&mut r, abi);
    append_toks(&mut r, &one(Tok::Punct('>', false)));
    r
}

fn ctype_of(co3: &Vec<Tok>, t: &Vec<Tok>) -> (r: Vec<Tok>)
    ensures
        toks_view(r@) == spec_ctype_of(toks_view(co3@), toks_view(t@)),
{
    qualified(t, &cp1(co3, "ExternC"), "CType")
}

fn hr_borrowed(co3: &Vec<Tok>, lt: &str, a: &Vec<Tok>) -> (r: Vec<Tok>)
    ensures
        toks_view(r@) == spec_hr_borrowed(toks_view(co3@), lt@, toks_view(a@)),
{
    proof {
        reveal_strlit("for");
    }
    let mut r = one(ident("for"));
    append_toks(&mut r, &one(Tok::Punct('<', false)));
    append_toks(&mut r, &lifetime(lt));
    append_toks(&mut r, &one(Tok::Punct('>', false)));
    append_toks(&mut r, &qualified(a, &cp2(co3, "borrow", "Borrow"), "Borrowed"));
    append_toks(&mut r, &one(Tok::Punct('<', false)));
    append_toks(&mut r, &lifetime(lt));
    append_toks(&mut r, &one(Tok::Punct('>', false)));
    r
}

fn unpack_bound(co3: &Vec<Tok>, a: &WrapperArg, tr: &Vec<Tok>) -> (r: Vec<Tok>)
    ensures
        toks_view(r@) == spec_unpack_bound(toks_view(co3@), a@, toks_view(tr@)),
{
    if a.by_value {
        bounded(&a.ty, tr)
    } else {
        bounded(&hr_borrowed(co3, "__co3_unpack", &a.ty), tr)
    }
}

fn empty_store(co3: &Vec<Tok>) -> (r: Vec<Tok>)
    ensures
        toks_view(r@) == spec_empty_store(toks_view(co3@)),
{
    cp2(co3, "stored", "EmptyStore")
}

fn push_list(out: &mut Vec<Vec<Tok>>, x: Vec<Tok>)
    ensures
        lists_view(final(out)@) == lists_view(old(out)@).push(toks_view(x@)),
{
    let ghost o = lists_view(out@);
    out.push(x);
    assert(lists_view(out@) =~= o.push(toks_view(x@)));
}

fn append_lists(out: &mut Vec<Vec<Tok>>, more: &Vec<Vec<Tok>>)
    ensures
        lists_view(final(out)@) == lists_view(old(out)@) + lists_view(more@),
{
    let ghost o = lists_view(out@);
    let mut i: usize = 0;
    while i < more.len()
        invariant
            i <= more@.len(),
            lists_view(out@) == o + lists_view(more@).subrange(0, i as int),
        decreases more@.len() - i,
    {
        let ghost before = lists_view(out@);
        push_list(out, copy_of(&more[i]));
        assert(lists_view(more@).subrange(0, i + 1) =~= lists_view(more@).subrange(0, i as int).push(toks_view(more@[i as int]@)));
        i = i + 1;
    }
    assert(lists_view(more@).subrange(0, more@.len() as int) =~= lists_view(more@));
}

fn dispatch_ty_bounds(co3: &Vec<Tok>, name: &String, id_repr: &Vec<Tok>) -> (r: Vec<Vec<Tok>>)
    ensures
        lists_view(r@) == spec_dispatch_ty_bounds(toks_view(co3@), name@, toks_view(id_repr@)),
{
    let n = one(Tok::Ident(name.clone()));
    let mut r: Vec<Vec<Tok>> = Vec::new();
    assert(lists_view(r@) =~= Seq::<Seq<SpecTok>>::empty());
    push_list(&mut r, bounded(&n, &cp2(co3, "tag", "Tagged")));
    let mut enc = cp1(co3, "Encode");
    let h = vec![Tok::Punct('<', false), ident("CType"), Tok::Punct('=', false)];
    proof {
        reveal_strlit("CType");
        reveal_strlit("Store");
    }
    assert(toks_view(h@) =~= seq![SpecTok::Punct('<', false), SpecTok::Ident("CType"@), SpecTok::Punct('=', false)]);
    append_toks(&mut enc, &h);
    append_toks(&mut enc, id_repr);
    let m = vec![Tok::Punct(',', false), ident("Store"), Tok::Punct(':', false)];
    assert(toks_view(m@) =~= seq![SpecTok::Punct(',', false), SpecTok::Ident("Store"@), SpecTok::Punct(':', false)]);
    append_toks(&mut enc, &m);
    append_toks(&mut enc, &cp2(co3, "stored", "EmptyStore"));
    append_toks(&mut enc, &one(Tok::Punct('>', false)));
    push_list(&mut r, bounded(&qualified(&n, &cp2(co3, "tag", "TagFamily"), "Kind"), &enc));
    assert(lists_view(r@) =~= spec_dispatch_ty_bounds(toks_view(co3@), name@, toks_view(id_repr@)));
    r
}

fn single_unpack_bounds(co3: &Vec<Tok>, abi: &Vec<Tok>, a: &WrapperArg, t: &Vec<Tok>) -> (r: Vec<Vec<Tok>>)
    ensures
        lists_view(r@) == spec_single_unpack_bounds(toks_view(co3@), toks_view(abi@), a@, toks_view(t@)),
{
    let target = ctype_of(co3, t);
    let mut tr = cp2(co3, "slice", "Unpack");
    append_toks(&mut tr, &one(Tok::Punct('<', false)));
    append_toks(&mut tr, &target);
    append_toks(&mut tr, &one(Tok::Punct('>', false)));
    let mut r: Vec<Vec<Tok>> = Vec::new();
    assert(lists_view(r@) =~= Seq::<Seq<SpecTok>>::empty());
    push_list(&mut r, unpack_bound(co3, a, &tr));
    push_list(&mut r, bounded(t, &cp1(co3, "ExternC")));
    push_list(&mut r, bounded(&target, &cfnarg(co3, abi)));
    assert(lists_view(r@) =~= spec_single_unpack_bounds(toks_view(co3@), toks_view(abi@), a@, toks_view(t@)));
    r
}

fn part_bounds(co3: &Vec<Tok>, abi: &Vec<Tok>, part: &Option<Vec<Tok>>, source: &Vec<Tok>) -> (r: Vec<Vec<Tok>>)
    ensures
        lists_view(r@) == spec_part_bounds(toks_view(co3@), toks_view(abi@), opt_toks_view(*part), toks_view(source@)),
{
    let mut r: Vec<Vec<Tok>> = Vec::new();
    assert(lists_view(r@) =~= Seq::<Seq<SpecTok>>::empty());
    match part {
        None => {
            push_list(&mut r, bounded(source, &cfnarg(co3, abi)));
        },
        Some(p) => {
            push_list(&mut r, bounded(p, &cp1(co3, "ExternC")));
            push_list(&mut r, bounded(&ctype_of(co3, p), &cfnarg(co3, abi)));
        },
    }
    assert(lists_view(r@) =~= spec_part_bounds(toks_view(co3@), toks_view(abi@), opt_toks_view(*part), toks_view(source@)));
    r
}

fn pair_bounds(co3: &Vec<Tok>, abi: &Vec<Tok>, a: &WrapperArg, p: &UnpackPair) -> (r: Vec<Vec<Tok>>)
    ensures
        lists_view(r@) == spec_pair_bounds(toks_view(co3@), toks_view(abi@), a@, p@),
{
    let mut tr = cp2(co3, "slice", "Unpack2");
    append_toks(&mut tr, &one(Tok::Punct('<', false)));
    append_toks(&mut tr, &p.source1);
    append_toks(&mut tr, &one(Tok::Punct(',', false)));
    append_toks(&mut tr, &p.source2);
    append_toks(&mut tr, &one(Tok::Punct('>', false)));
    let mut r = part_bounds(co3, abi, &p.part1, &p.source1);
    append_lists(&mut r, &part_bounds(co3, abi, &p.part2, &p.source2));
    let ghost r0 = lists_view(r@);
    push_list(&mut r, unpack_bound(co3, a, &tr));
    push_list(&mut r, bounded(&p.abi1, &cfnarg(co3, abi)));
    push_list(&mut r, bounded(&p.abi2, &cfnarg(co3, abi)));
    assert(lists_view(r@) =~= spec_pair_bounds(toks_view(co3@), toks_view(abi@), a@, p@));
    r
}

fn encode_bounds(co3: &Vec<Tok>, a: &WrapperArg) -> (r: Vec<Vec<Tok>>)
    ensures
        lists_view(r@) == spec_encode_bounds(toks_view(co3@), a@),
{
    proof {
        reveal_strlit("Store");
        reveal_strlit("AsConst");
        reveal_strlit("Sized");
        reveal_strlit("CType");
    }
    let mut store = vec![ident("Store"), Tok::Punct(':', false)];
    assert(toks_view(store@) =~= seq![SpecTok::Ident("Store"@), SpecTok::Punct(':', false)]);
    append_toks(&mut store, &empty_store(co3));
    let ghost c = toks_view(co3@);
    let ghost sv = toks_view(store@);
    assert(sv == seq![SpecTok::Ident("Store"@), SpecTok::Punct(':', false)] + spec_empty_store(c));
    let mut r: Vec<Vec<Tok>> = Vec::new();
    assert(lists_view(r@) =~= Seq::<Seq<SpecTok>>::empty());
    if a.by_value {
        let mut b = cp1(co3, "Encode");
        if !a.soft {
            let mut g = one(Tok::Punct('<', false));
            append_toks(&mut g, &store);
            append_toks(&mut g, &one(Tok::Punct('>', false)));
            append_toks(&mut b, &g);
        } else {
            let ghost b0 = toks_view(b@);
            assert(b0 + Seq::<SpecTok>::empty() =~= b0);
        }
        assert(toks_view(b@) =~= spec_cp1(c, "Encode"@) + if a.soft {
            Seq::<SpecTok>::empty()
        } else {
            seq![SpecTok::Punct('<', false)] + sv + seq![SpecTok::Punct('>', false)]
        });
        push_list(&mut r, bounded(&a.ty, &b));
        assert(lists_view(r@) =~= spec_encode_bounds(c, a@));
    } else {
        let ctype = ctype_of(co3, &a.ty);
        let cast = cp2(co3, "borrow", "BorrowCast");
        let as_const = qualified(&ctype, &cast, "AsConst");
        let mut b1 = cp1(co3, "ExternC");
        append_toks(&mut b1, &one(Tok::Punct('+', false)));
        append_toks(&mut b1, &cp2(co3, "borrow", "Borrow"));
        push_list(&mut r, bounded(&a.ty, &b1));
        let mut b2 = copy_of(&cast);
        let t2 = vec![Tok::Punct('<', false), ident("AsConst"), Tok::Punct(':', false), ident("Sized"), Tok::Punct('>', false)];
        assert(toks_view(t2@) =~= seq![
            SpecTok::Punct('<', false),
            SpecTok::Ident("AsConst"@),
            SpecTok::Punct(':', false),
            SpecTok::Ident("Sized"@),
            SpecTok::Punct('>', false),
        ]);
        append_toks(&mut b2, &t2);
        push_list(&mut r, bounded(&ctype, &b2));
        let mut b3 = cp1(co3, "Encode");
        let h = vec![Tok::Punct('<', false), ident("CType"), Tok::Punct('=', false)];
        assert(toks_view(h@) =~= seq![SpecTok::Punct('<', false), SpecTok::Ident("CType"@), SpecTok::Punct('=', false)]);
        append_toks(&mut b3, &h);
        append_toks(&mut b3, &as_const);
        append_toks(&mut b3, &one(Tok::Punct(',', false)));
        let mut tail: Vec<Tok> = Vec::new();
        assert(toks_view(tail@) =~= Seq::<SpecTok>::empty());
        if !a.soft {
            append_toks(&mut tail, &store);
            append_toks(&mut tail, &one(Tok::Punct(',', false)));
        }
        append_toks(&mut tail, &one(Tok::Punct('>', false)));
        assert(toks_view(tail@) =~= (if a.soft {
            Seq::<SpecTok>::empty()
        } else {
            sv + seq![SpecTok::Punct(',', false)]
        }) + seq![SpecTok::Punct('>', false)]);
        let ghost b30 = toks_view(b3@);
        append_toks(&mut b3, &tail);
        assert(toks_view(b3@) =~= b30 + (if a.soft {
            Seq::<SpecTok>::empty()
        } else {
            sv + seq![SpecTok::Punct(',', false)]
        }) + seq![SpecTok::Punct('>', false)]);
        push_list(&mut r, bounded(&hr_borrowed(co3, "__co3_borrow", &a.ty), &b3));
        assert(lists_view(r@)[0] == spec_encode_bounds(c, a@)[0]);
        assert(lists_view(r@)[1] == spec_encode_bounds(c, a@)[1]);
        assert(lists_view(r@)[2] =~= spec_encode_bounds(c, a@)[2]);
    }
    assert(lists_view(r@) =~= spec_encode_bounds(toks_view(co3@), a@));
    r
}

fn arg_bounds(co3: &Vec<Tok>, abi: &Vec<Tok>, a: &WrapperArg) -> (r: Vec<Vec<Tok>>)
    ensures
        lists_view(r@) == spec_arg_bounds(toks_view(co3@), toks_view(abi@), a@),
{
    let mut r: Vec<Vec<Tok>> = Vec::new();
    assert(lists_view(r@) =~= Seq::<Seq<SpecTok>>::empty());
    match &a.unpack_target {
        Some(t) => append_lists(&mut r, &single_unpack_bounds(co3, abi, a, t)),
        None => {},
    }
    match &a.unpack_pair {
        Some(p) => append_lists(&mut r, &pair_bounds(co3, abi, a, p)),
        None => {},
    }
    if !a.tag_id && (a.mentions || a.unpack_pair.is_some()) {
        append_lists(&mut r, &encode_bounds(co3, a));
    }
    assert(lists_view(r@) =~= spec_arg_bounds(toks_view(co3@), toks_view(abi@), a@));
    r
}

/// The predicates that a dispatch wrapper's where clause gains (see
/// `spec_dispatch_wrapper_bounds`), from the path of the `co3` crate, the
/// ABI's marker type, each dispatched type's name and id representation,
/// the typed arguments, and the return type where it mentions a dispatched
/// or erased parameter.
pub fn dispatch_wrapper_bounds(
    co3: &Vec<Tok>,
    abi: &Vec<Tok>,
    dispatched: &Vec<(String, Vec<Tok>)>,
    args: &Vec<WrapperArg>,
    output: Option<&Vec<Tok>>,
) -> (r: Vec<Vec<Tok>>)
    ensures
        lists_view(r@) == spec_dispatch_wrapper_bounds(
            toks_view(co3@),
            toks_view(abi@),
            dispatch_tys_view(dispatched@),
            wrapper_args_view(args@),
            match output {
                Some(o) => Some(toks_view(o@)),
                None => None,
            },
        ),
{
    let ghost c = toks_view(co3@);
    let ghost ab = toks_view(abi@);
    let ghost ds = dispatch_tys_view(dispatched@);
    let ghost av = wrapper_args_view(args@);
    let mut r: Vec<Vec<Tok>> = Vec::new();
    assert(lists_view(r@) =~= Seq::<Seq<SpecTok>>::empty());
    let mut i: usize = 0;
    while i < dispatched.len()
        invariant
            i <= dispatched@.len(),
            c == toks_view(co3@),
            ds == dispatch_tys_view(dispatched@),
            lists_view(r@) == spec_dispatch_tys_bounds(c, ds, i as int),
        decreases dispatched@.len() - i,
    {
        let (name, id_repr) = &dispatched[i];
        append_lists(&mut r, &dispatch_ty_bounds(co3, name, id_repr));
        i = i + 1;
    }
    let ghost r1 = lists_view(r@);
    let mut j: usize = 0;
    let mut rest: Vec<Vec<Tok>> = Vec::new();
    assert(lists_view(rest@) =~= Seq::<Seq<SpecTok>>::empty());
    while j < args.len()
        invariant
            j <= args@.len(),
            c == toks_view(co3@),
            ab == toks_view(abi@),
            av == wrapper_args_view(args@),
            lists_view(rest@) == spec_args_bounds(c, ab, av, j as int),
        decreases args@.len() - j,
    {
        append_lists(&mut rest, &arg_bounds(co3, abi, &args[j]));
        j = j + 1;
    }
    append_lists(&mut r, &rest);
    match output {
        Some(o) => {
            proof {
                reveal_strlit("for");
                reveal_strlit("Store");
            }
            let mut p = one(ident("for"));
            append_toks(&mut p, &one(Tok::Punct('<', false)));
            append_toks(&mut p, &lifetime("a"));
            append_toks(&mut p, &one(Tok::Punct('>', false)));
            let mut b = cp1(co3, "Decode");
            append_toks(&mut b, &one(Tok::Punct('<', false)));
            append_toks(&mut b, &lifetime("a"));
            let m = vec![Tok::Punct(',', false), ident("Store"), Tok::Punct(':', false)];
            assert(toks_view(m@) =~= seq![SpecTok::Punct(',', false), SpecTok::Ident("Store"@), SpecTok::Punct(':', false)]);
            append_toks(&mut b, &m);
            append_toks(&mut b, &empty_store(co3));
            append_toks(&mut b, &one(Tok::Punct('>', false)));
            append_toks(&mut p, &bounded(o, &b));
            assert(toks_view(p@) =~= spec_output_bound(c, toks_view(o@)));
            push_list(&mut r, p);
        },
        None => {
            let ghost rr = lists_view(r@);
            assert(rr + Seq::<Seq<SpecTok>>::empty() =~= rr);
        },
    }
    r
}

} // verus!
