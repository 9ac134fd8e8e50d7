//! The statements by which an imported drop wrapper with run-time dispatch
//! fills in its tag-id parameters: each such parameter is bound to the tag
//! of its type (a dispatched type parameter, or the declared `Self`), cast
//! to the id representation, which becomes the parameter's type; and the
//! bound that the declared `Self` is tagged, where one of them is its tag.
use vstd::prelude::*;
use crate::codegen::{ident, lists_view, path3, spec_path3};
use crate::preprocess::append_toks;
use crate::tokens::{Delimiter, SpecTok, Tok, toks_view};

verus! {

/// What a parameter of the wrapper is, as far as its tag goes: not a tag id;
/// the tag id of a type parameter, with that parameter's id representation
/// where it is dispatched at run time (`None` where it is not, or is not a
/// parameter of the impl); or the tag id of the declared `Self`.
#[derive(Debug, PartialEq, Eq)]
pub enum SelectorArg {
    Plain,
    DynType { name: String, id_repr: Option<Vec<Tok>> },
    DynSelf,
}

/// The value of a wrapper parameter.
pub enum SpecSelectorArg {
    Plain,
    DynType { name: Seq<char>, id_repr: Option<Seq<SpecTok>> },
    DynSelf,
}

impl View for SelectorArg {
    type V = SpecSelectorArg;

    open spec fn view(&self) -> SpecSelectorArg {
        match self {
            SelectorArg::Plain => SpecSelectorArg::Plain,
            SelectorArg::DynType { name, id_repr } => SpecSelectorArg::DynType {
                name: name@,
                id_repr: match id_repr {
                    Some(t) => Some(toks_view(t@)),
                    None => None,
                },
            },
            SelectorArg::DynSelf => SpecSelectorArg::DynSelf,
        }
    }
}

/// The values of the wrapper's parameters, each with its pattern.
pub open spec fn selector_args_view(s: Seq<(Vec<Tok>, SelectorArg)>) -> Seq<(Seq<SpecTok>, SpecSelectorArg)> {
    Seq::new(s.len(), |i: int| (toks_view(s[i].0@), s[i].1@))
}

/// `let pat: id_ty = { let __co3_tag_id = <tag_ty as co3::tag::Tagged>::TAG;
/// unsafe { core::mem::transmute_copy(&__co3_tag_id) } };`
pub open spec fn spec_selector_assignment(pat: Seq<SpecTok>, tag_ty: Seq<SpecTok>, id_ty: Seq<SpecTok>) -> Seq<SpecTok> {
    let tag = seq![SpecTok::Punct('<', false)] + tag_ty + seq![SpecTok::Ident("as"@)] + spec_path3("co3"@, "tag"@, "Tagged"@)
        + seq![SpecTok::Punct('>', false), SpecTok::Punct(':', true), SpecTok::Punct(':', false), SpecTok::Ident("TAG"@)];
    let cast = spec_path3("core"@, "mem"@, "transmute_copy"@) + seq![
        SpecTok::Group(Delimiter::Parenthesis, seq![SpecTok::Punct('&', false), SpecTok::Ident("__co3_tag_id"@)]),
    ];
    seq![SpecTok::Ident("let"@)] + pat + seq![SpecTok::Punct(':', false)] + id_ty + seq![
        SpecTok::Punct('=', false),
        SpecTok::Group(
            Delimiter::Brace,
            seq![SpecTok::Ident("let"@), SpecTok::Ident("__co3_tag_id"@), SpecTok::Punct('=', false)] + tag + seq![
                SpecTok::Punct(';', false),
                SpecTok::Ident("unsafe"@),
                SpecTok::Group(Delimiter::Brace, cast),
            ],
        ),
        SpecTok::Punct(';', false),
    ]
}

/// The tag type and id representation of a parameter, where it is filled in
/// from its tag: a dispatched type parameter's, or the declared `Self`'s
/// where the declaration names its id type.
pub open spec fn spec_selector_of(
    a: SpecSelectorArg,
    self_ty: Seq<SpecTok>,
    self_id: Option<Seq<SpecTok>>,
) -> Option<(Seq<SpecTok>, Seq<SpecTok>)> {
    match a {
        SpecSelectorArg::Plain => None,
        SpecSelectorArg::DynType { name, id_repr } => match id_repr {
            Some(r) => Some((seq![SpecTok::Ident(name)], r)),
            None => None,
        },
        SpecSelectorArg::DynSelf => match self_id {
            Some(i) => Some((self_ty, i)),
            None => None,
        },
    }
}

/// The assignments of the first `n` parameters, in order.
pub open spec fn spec_selector_assignments(
    args: Seq<(Seq<SpecTok>, SpecSelectorArg)>,
    self_ty: Seq<SpecTok>,
    self_id: Option<Seq<SpecTok>>,
    n: int,
) -> Seq<Seq<SpecTok>>
    decreases n,
{
    if n <= 0 || n > args.len() {
        Seq::empty()
    } else {
        spec_selector_assignments(args, self_ty, self_id, n - 1) + match spec_selector_of(args[n - 1].1, self_ty, self_id) {
            Some((t, i)) => seq![spec_selector_assignment(args[n - 1].0, t, i)],
            None => Seq::empty(),
        }
    }
}

/// Each parameter's new type: its id representation where it is filled in.
pub open spec fn spec_selector_types(
    args: Seq<(Seq<SpecTok>, SpecSelectorArg)>,
    self_ty: Seq<SpecTok>,
    self_id: Option<Seq<SpecTok>>,
) -> Seq<Option<Seq<SpecTok>>> {
    Seq::new(
        args.len(),
        |i: int|
            match spec_selector_of(args[i].1, self_ty, self_id) {
                Some((_, r)) => Some(r),
                None => None,
            },
    )
}

/// `self_ty: co3::tag::Tagged,` where a parameter is the declared `Self`'s
/// tag id.
pub open spec fn spec_self_tag_bound(args: Seq<(Seq<SpecTok>, SpecSelectorArg)>, self_ty: Seq<SpecTok>) -> Seq<SpecTok> {
    if exists|i: int| 0 <= i < args.len() && (#[trigger] args[i]).1 is DynSelf {
        self_ty + seq![SpecTok::Punct(':', false)] + spec_path3("co3"@, "tag"@, "Tagged"@) + seq![SpecTok::Punct(',', false)]
    } else {
        Seq::empty()
    }
}

fn selector_assignment(pat: &Vec<Tok>, tag_ty: &Vec<Tok>, id_ty: &Vec<Tok>) -> (r: Vec<Tok>)
    ensures
        toks_view(r@) == spec_selector_assignment(toks_view(pat@), toks_view(tag_ty@), toks_view(id_ty@)),
{
    proof {
        reveal_strlit("let");
        reveal_strlit("as");
        reveal_strlit("TAG");
        reveal_strlit("__co3_tag_id");
        reveal_strlit("unsafe");
    }
    let mut tag = vec![Tok::Punct('<', false)];
    assert(toks_view(tag@) =~= seq![SpecTok::Punct('<', false)]);
    append_toks(&mut tag, tag_ty);
    let a = vec![ident("as")];
    assert(toks_view(a@) =~= seq![SpecTok::Ident("as"@)]);
    append_toks(&mut tag, &a);
    append_toks(&mut tag, &path3("co3", "tag", "Tagged"));
    let t2 = vec![Tok::Punct('>', false), Tok::Punct(':', true), Tok::Punct(':', false), ident("TAG")];
    assert(toks_view(t2@) =~= seq![SpecTok::Punct('>', false), SpecTok::Punct(':', true), SpecTok::Punct(':', false), SpecTok::Ident("TAG"@)]);
    append_toks(&mut tag, &t2);
    let mut cast = path3("core", "mem", "transmute_copy");
    let refv = vec![Tok::Punct('&', false), ident("__co3_tag_id")];
    assert(toks_view(refv@) =~= seq![SpecTok::Punct('&', false), SpecTok::Ident("__co3_tag_id"@)]);
    let ghost rv = toks_view(refv@);
    let g = vec![Tok::Group(Delimiter::Parenthesis, refv)];
    assert(toks_view(g@) =~= seq![SpecTok::Group(Delimiter::Parenthesis, rv)]);
    append_toks(&mut cast, &g);
    let ghost castv = toks_view(cast@);
    let mut block = vec![ident("let"), ident("__co3_tag_id"), Tok::Punct('=', false)];
    assert(toks_view(block@) =~= seq![SpecTok::Ident("let"@), SpecTok::Ident("__co3_tag_id"@), SpecTok::Punct('=', false)]);
    append_toks(&mut block, &tag);
    let b2 = vec![Tok::Punct(';', false), ident("unsafe"), Tok::Group(Delimiter::Brace, cast)];
    assert(toks_view(b2@) =~= seq![SpecTok::Punct(';', false), SpecTok::Ident("unsafe"@), SpecTok::Group(Delimiter::Brace, castv)]);
    append_toks(&mut block, &b2);
    let ghost bv = toks_view(block@);
    let mut r = vec![ident("let")];
    assert(toks_view(r@) =~= seq![SpecTok::Ident("let"@)]);
    append_toks(&mut r, pat);
    let c = vec![Tok::Punct(':', false)];
    assert(toks_view(c@) =~= seq![SpecTok::Punct(':', false)]);
    append_toks(&mut r, &c);
    append_toks(&mut r, id_ty);
    let tail = vec![Tok::Punct('=', false), Tok::Group(Delimiter::Brace, block), Tok::Punct(';', false)];
    assert(toks_view(tail@) =~= seq![SpecTok::Punct('=', false), SpecTok::Group(Delimiter::Brace, bv), SpecTok::Punct(';', false)]);
    append_toks(&mut r, &tail);
    r
}

fn copy_of(v: &Vec<Tok>) -> (r: Vec<Tok>)
    ensures
        toks_view(r@) == toks_view(v@),
{
    let mut r: Vec<Tok> = Vec::new();
    append_toks(&mut r, v);
    assert(toks_view(r@) =~= toks_view(v@));
    r
}

fn selector_of(a: &SelectorArg, self_ty: &Vec<Tok>, self_id: Option<&Vec<Tok>>) -> (r: Option<(Vec<Tok>, Vec<Tok>)>)
    ensures
        match r {
            Some((t, i)) => spec_selector_of(a@, toks_view(self_ty@), match self_id {
                Some(s) => Some(toks_view(s@)),
                None => None,
            }) == Some((toks_view(t@), toks_view(i@))),
            None => spec_selector_of(a@, toks_view(self_ty@), match self_id {
                Some(s) => Some(toks_view(s@)),
                None => None,
            }) is None,
        },
{
    match a {
        SelectorArg::Plain => None,
        SelectorArg::DynType { name, id_repr } => match id_repr {
            Some(r) => {
                let t = vec![Tok::Ident(name.clone())];
                assert(toks_view(t@) =~= seq![SpecTok::Ident(name@)]);
                Some((t, copy_of(r)))
            },
            None => None,
        },
        SelectorArg::DynSelf => match self_id {
            Some(i) => Some((copy_of(self_ty), copy_of(i))),
            None => None,
        },
    }
}

/// The statements that fill in a drop wrapper's tag-id parameters and each
/// parameter's new type (see `spec_selector_assignments` and
/// `spec_selector_types`), from its parameters with their patterns, the
/// declared `Self` type, and the declared id type, if any.
pub fn drop_selector_assignments(
    args: &Vec<(Vec<Tok>, SelectorArg)>,
    self_ty: &Vec<Tok>,
    self_id: Option<&Vec<Tok>>,
) -> (r: (Vec<Vec<Tok>>, Vec<Option<Vec<Tok>>>))
    ensures
        ({
            let av = selector_args_view(args@);
            let sid = match self_id {
                Some(s) => Some(toks_view(s@)),
                None => None,
            };
            &&& lists_view(r.0@) == spec_selector_assignments(av, toks_view(self_ty@), sid, av.len() as int)
            &&& r.1@.len() == args@.len()
            &&& forall|i: int|
                0 <= i < args@.len() ==> (match #[trigger] r.1@[i] {
                    Some(t) => Some(toks_view(t@)),
                    None => None,
                }) == spec_selector_types(av, toks_view(self_ty@), sid)[i]
        }),
{
    let ghost av = selector_args_view(args@);
    let ghost sv = toks_view(self_ty@);
    let ghost sid = match self_id {
        Some(s) => Some(toks_view(s@)),
        None => None,
    };
    let mut stmts: Vec<Vec<Tok>> = Vec::new();
    let mut tys: Vec<Option<Vec<Tok>>> = Vec::new();
    assert(lists_view(stmts@) =~= Seq::<Seq<SpecTok>>::empty());
    let mut i: usize = 0;
    while i < args.len()
        invariant
            i <= args@.len(),
            av == selector_args_view(args@),
            sv == toks_view(self_ty@),
            sid == (match self_id {
                Some(s) => Some(toks_view(s@)),
                None => None,
            }),
            lists_view(stmts@) == spec_selector_assignments(av, sv, sid, i as int),
            tys@.len() == i,
            forall|j: int|
                0 <= j < i ==> (match #[trigger] tys@[j] {
                    Some(t) => Some(toks_view(t@)),
                    None => None,
                }) == spec_selector_types(av, sv, sid)[j],
        decreases args@.len() - i,
    {
        let (pat, a) = &args[i];
        let ghost s0 = lists_view(stmts@);
        match selector_of(a, self_ty, self_id) {
            Some((t, id)) => {
                let s = selector_assignment(pat, &t, &id);
                stmts.push(s);
                assert(lists_view(stmts@) =~= s0 + seq![spec_selector_assignment(av[i as int].0, toks_view(t@), toks_view(id@))]);
                tys.push(Some(id));
            },
            None => {
                assert(lists_view(stmts@) =~= s0 + Seq::<Seq<SpecTok>>::empty());
                tys.push(None);
            },
        }
        i = i + 1;
    }
    (stmts, tys)
}

/// The bound that the declared `Self` is tagged (see `spec_self_tag_bound`).
pub fn self_tag_bound(args: &Vec<(Vec<Tok>, SelectorArg)>, self_ty: &Vec<Tok>) -> (r: Vec<Tok>)
    ensures
        toks_view(r@) == spec_self_tag_bound(selector_args_view(args@), toks_view(self_ty@)),
{
    let ghost av = selector_args_view(args@);
    let mut found = false;
    let mut i: usize = 0;
    while i < args.len()
        invariant
            i <= args@.len(),
            av == selector_args_view(args@),
            found <==> exists|j: int| 0 <= j < i && (#[trigger] av[j]).1 is DynSelf,
        decreases args@.len() - i,
    {
        let is_self = match &args[i].1 {
            SelectorArg::DynSelf => true,
            _ => false,
        };
        if is_self {
            found = true;
        }
        assert(av[i as int].1 is DynSelf <==> is_self);
        i = i + 1;
    }
    if found {
        let mut r = copy_of(self_ty);
        let c = vec![Tok::Punct(':', false)];
        assert(toks_view(c@) =~= seq![SpecTok::Punct(':', false)]);
        append_toks(&mut r, &c);
        append_toks(&mut r, &path3("co3", "tag", "Tagged"));
        let e = vec![Tok::Punct(',', false)];
        assert(toks_view(e@) =~= seq![SpecTok::Punct(',', false)]);
        append_toks(&mut r, &e);
        r
    } else {
        let r: Vec<Tok> = Vec::new();
        assert(toks_view(r@) =~= Seq::<SpecTok>::empty());
        r
    }
}

} // verus!
