//! The C signature of an exported or imported function: each parameter's
//! type lowered to its C type (an unpacked one split in two), the return
//! type to its C type, after the lifetimes are made explicit and the
//! outlives bounds written out.
use vstd::prelude::*;
use crate::self_ty::is_tag_id_view;
use crate::types::{
    Bound, GenericArg, PathArgs, QSelf, SpecArg, SpecBound, SpecArgs, SpecPath, SpecSegment, SpecTy, Ty, TyPath,
    bounds_view, clone_strings, clone_ty, generic_args_view, strings_view, is_copy_primitive_name, segments_view, spec_all_by_value, spec_boxed_wide,
    spec_implicitly_by_value, spec_option_inner, spec_peel, spec_tag_id, spec_type_args, tys_view,
};
use crate::signature::{FnInput, FnSig, SpecFnInput, SpecSig, SpecWherePredicate, WherePredicate, inputs_view, predicates_view};
use crate::ffi_attrs::FailureMode;
use crate::lifetimes::spec_explicitize;
use crate::outlives::spec_synthesize;
use crate::tokens::{Attr, AttrMeta, SpecTok, attr_path_is, clone_toks, toks_view};
use crate::text::{push_str, string_of};
use crate::symbol::is_ident_text;
use crate::self_ty::spec_receiver_ty;
use crate::unpack::{
    UnpackList, bare_segment, ctype, spec_is_unpack_arg, spec_unpack_parts,
    SpecUnpackError, UnpackPart, spec_abi_part, spec_cbox, spec_ctype, spec_inferred_non_option,
    spec_wide_assoc, spec_wide_data,
};

verus! {

// ---------------------------------------------------------------------------
// How a type crosses, read from its value.

/// Whether a segment's arguments are empty: none, or `<>`.
pub open spec fn args_empty_view(a: SpecArgs) -> bool {
    match a {
        SpecArgs::Bare => true,
        SpecArgs::Angle(args) => args.len() == 0,
        SpecArgs::Parenthesized(..) => false,
    }
}

/// Whether an unqualified path ends in a primitive `Copy` type without
/// arguments.
pub open spec fn copy_primitive_view(p: SpecPath) -> bool {
    p.qself is None && p.segments.len() > 0 && args_empty_view(p.segments.last().args)
        && is_copy_primitive_name(p.segments.last().ident)
}

/// Whether an argument of this type crosses by value without being marked:
/// tag ids, references, raw and function pointers, primitive `Copy` types,
/// `Option`s of such types, and non-empty tuples of such types.
pub open spec fn by_value_view(t: SpecTy) -> bool
    decreases t, 1int,
{
    match t {
        SpecTy::Paren { elem, .. } => by_value_view(*elem),
        SpecTy::Group { elem, .. } => by_value_view(*elem),
        _ => if is_tag_id_view(t) {
            true
        } else {
            match t {
                SpecTy::Reference { .. } | SpecTy::Ptr { .. } | SpecTy::FnPtr { .. } => true,
                SpecTy::Path(p) => copy_primitive_view(p) || (p.segments.len() > 0 && p.segments.last().ident
                    == "Option"@ && match p.segments.last().args {
                    SpecArgs::Angle(args) => args.len() == 1 && match args[0] {
                        SpecArg::Type(inner) => by_value_view(inner),
                        _ => false,
                    },
                    _ => false,
                }),
                SpecTy::Tuple(elems) => elems.len() > 0 && all_by_value_view(elems, 0),
                _ => false,
            }
        },
    }
}

/// Whether every type of `s` from `i` on crosses by value without being
/// marked.
pub open spec fn all_by_value_view(s: Seq<SpecTy>, i: int) -> bool
    decreases s, s.len() - i,
{
    if i < 0 || i >= s.len() {
        true
    } else {
        by_value_view(s[i]) && all_by_value_view(s, i + 1)
    }
}

proof fn lemma_tag_id_view(t: Ty)
    ensures
        (spec_tag_id(t) is Some) == is_tag_id_view(t@),
{
    match t {
        Ty::Path(p) => {
            assert(t@ == SpecTy::Path(p@));
            match p.qself {
                Some(q) => {
                    if p.segments@.len() == 1 {
                        assert(p@.segments[0] == SpecSegment {
                            ident: p.segments@[0].ident@,
                            args: crate::types::path_args_view(p.segments@[0].args),
                        });
                    }
                    match *q.ty {
                        crate::types::Ty::TraitObject { bounds, .. } => {
                            if bounds@.len() == 1 {
                                assert(crate::types::bounds_view(bounds@)[0] == crate::types::bound_view(
                                    bounds@[0],
                                ));
                            }
                        },
                        _ => {},
                    }
                },
                None => {},
            }
        },
        _ => {},
    }
}

/// Whether an argument of a type crosses by value depends only on the
/// type's value.
pub proof fn lemma_by_value_view(t: Ty)
    ensures
        spec_implicitly_by_value(t) == by_value_view(t@),
    decreases t, 1int,
{
    match t {
        Ty::Paren { elem, .. } => {
            lemma_by_value_view(*elem);
        },
        Ty::Group { elem, .. } => {
            lemma_by_value_view(*elem);
        },
        _ => {
            lemma_tag_id_view(t);
            match t {
                Ty::Path(p) => {
                    assert(t@ == SpecTy::Path(p@));
                    if p.segments@.len() > 0 {
                        let seg = p.segments@.last();
                        assert(p@.segments.last() == SpecSegment {
                            ident: seg.ident@,
                            args: crate::types::path_args_view(seg.args),
                        });
                        match seg.args {
                            PathArgs::Angle(args) => {
                                if args@.len() == 1 {
                                    assert(generic_args_view(args@)[0] == crate::types::generic_arg_view(
                                        args@[0],
                                    ));
                                    match args@[0] {
                                        GenericArg::Type(inner) => {
                                            assert(decreases_to!(t => p));
                                            assert(decreases_to!(p => p.segments));
                                            assert(decreases_to!(p.segments => p.segments@));
                                            assert(decreases_to!(p.segments@ => seg));
                                            assert(decreases_to!(seg => seg.args));
                                            assert(decreases_to!(seg.args => args));
                                            assert(decreases_to!(args => args@));
                                            assert(decreases_to!(args@ => args@[0]));
                                            assert(decreases_to!(args@[0] => inner));
                                            lemma_by_value_view(inner);
                                        },
                                        _ => {},
                                    }
                                }
                            },
                            _ => {},
                        }
                    }
                },
                Ty::Tuple(elems) => {
                    lemma_all_by_value_view(elems@, 0);
                },
                _ => {},
            }
        },
    }
}

/// The same for every type of a sequence from `i` on.
proof fn lemma_all_by_value_view(s: Seq<Ty>, i: int)
    ensures
        spec_all_by_value(s, i) == all_by_value_view(tys_view(s), i),
    decreases s, s.len() - i,
{
    if 0 <= i < s.len() {
        assert(tys_view(s)[i] == s[i]@);
        lemma_by_value_view(s[i]);
        lemma_all_by_value_view(s, i + 1);
    }
}

// ---------------------------------------------------------------------------
// The parts of an unpacked parameter, read from its type's value.

/// The type inside any parentheses and invisible groups.
pub open spec fn peel_view(t: SpecTy) -> SpecTy
    decreases t,
{
    match t {
        SpecTy::Paren { elem, .. } => peel_view(*elem),
        SpecTy::Group { elem, .. } => peel_view(*elem),
        _ => t,
    }
}

/// The `T` of a type `...::Option<T>`.
pub open spec fn option_inner_view(t: SpecTy) -> Option<SpecTy> {
    match t {
        SpecTy::Path(p) => if p.segments.len() > 0 && p.segments.last().ident == "Option"@ {
            match p.segments.last().args {
                SpecArgs::Angle(args) => if args.len() == 1 {
                    match args[0] {
                        SpecArg::Type(inner) => Some(inner),
                        _ => None,
                    }
                } else {
                    None
                },
                _ => None,
            }
        } else {
            None
        },
        _ => None,
    }
}

/// The type arguments among the generic arguments `i..`, in order.
pub open spec fn type_args_view(args: Seq<SpecArg>, i: int) -> Seq<SpecTy>
    decreases args.len() - i,
{
    if i < 0 || i >= args.len() {
        Seq::empty()
    } else {
        match args[i] {
            SpecArg::Type(t) => seq![t] + type_args_view(args, i + 1),
            _ => type_args_view(args, i + 1),
        }
    }
}

/// The `T` of a type `...::Box<T>` with exactly one type argument.
pub open spec fn boxed_wide_view(t: SpecTy) -> Option<SpecTy> {
    match t {
        SpecTy::Path(p) => if p.segments.len() > 0 && p.segments.last().ident == "Box"@ {
            match p.segments.last().args {
                SpecArgs::Angle(args) => {
                    let types = type_args_view(args, 0);
                    if types.len() == 1 {
                        Some(types[0])
                    } else {
                        None
                    }
                },
                _ => None,
            }
        } else {
            None
        },
        _ => None,
    }
}

/// The C type of the first or the second part inferred from a type that is
/// not an `Option`.
pub open spec fn inferred_non_option_view(t: SpecTy, second: bool) -> Result<SpecTy, SpecUnpackError>
    decreases t,
{
    match t {
        SpecTy::Paren { elem, .. } => inferred_non_option_view(*elem, second),
        SpecTy::Group { elem, .. } => inferred_non_option_view(*elem, second),
        SpecTy::Tuple(elems) if elems.len() == 2 => Ok(
            spec_ctype(
                if second {
                    elems[1]
                } else {
                    elems[0]
                },
            ),
        ),
        _ => match boxed_wide_view(t) {
            Some(w) => Ok(
                if second {
                    spec_wide_assoc(w, "Metadata"@)
                } else {
                    spec_cbox(spec_wide_data(w))
                },
            ),
            None => match t {
                SpecTy::Reference { mutable, elem, .. } => Ok(
                    if second {
                        spec_wide_assoc(*elem, "Metadata"@)
                    } else {
                        SpecTy::Ptr { mutable, elem: Box::new(spec_wide_data(*elem)) }
                    },
                ),
                _ => Err(SpecUnpackError::Inferred { second }),
            },
        },
    }
}

/// The C type of a part inferred from the parameter's type.
pub open spec fn inferred_part_view(arg: SpecTy, second: bool) -> Result<SpecTy, SpecUnpackError> {
    let t = peel_view(arg);
    match option_inner_view(t) {
        Some(inner) => inferred_non_option_view(inner, second),
        None => inferred_non_option_view(t, second),
    }
}

/// The C type that crosses the boundary for a part, for a parameter of the
/// type `arg`.
pub open spec fn abi_part_view(arg: SpecTy, part: UnpackPart, second: bool) -> Result<SpecTy, SpecUnpackError> {
    match part.abi {
        Some(abi) => Ok(spec_ctype(abi@)),
        None => if part.logical is Infer {
            inferred_part_view(arg, second)
        } else {
            Ok(spec_ctype(part.logical@))
        },
    }
}

proof fn lemma_peel_view(t: Ty)
    ensures
        spec_peel(t)@ == peel_view(t@),
    decreases t,
{
    match t {
        Ty::Paren { elem, .. } => lemma_peel_view(*elem),
        Ty::Group { elem, .. } => lemma_peel_view(*elem),
        _ => {},
    }
}

proof fn lemma_last_segment_view(p: TyPath)
    requires
        p.segments@.len() > 0,
    ensures
        p@.segments.last() == (SpecSegment {
            ident: p.segments@.last().ident@,
            args: crate::types::path_args_view(p.segments@.last().args),
        }),
{
}

proof fn lemma_option_inner_view(t: Ty)
    ensures
        match spec_option_inner(t) {
            Some(i) => option_inner_view(t@) == Some(i@),
            None => option_inner_view(t@) is None,
        },
{
    match t {
        Ty::Path(p) => {
            assert(t@ == SpecTy::Path(p@));
            if p.segments@.len() > 0 {
                lemma_last_segment_view(p);
                match p.segments@.last().args {
                    PathArgs::Angle(args) => {
                        if args@.len() == 1 {
                            assert(generic_args_view(args@)[0] == crate::types::generic_arg_view(args@[0]));
                        }
                    },
                    _ => {},
                }
            }
        },
        _ => {},
    }
}

proof fn lemma_type_args_view(args: Seq<GenericArg>, i: int)
    ensures
        tys_view(spec_type_args(args, i)) == type_args_view(generic_args_view(args), i),
    decreases args.len() - i,
{
    if 0 <= i < args.len() {
        lemma_type_args_view(args, i + 1);
        assert(generic_args_view(args)[i] == crate::types::generic_arg_view(args[i]));
        match args[i] {
            GenericArg::Type(t) => {
                assert(tys_view(seq![t] + spec_type_args(args, i + 1)) =~= seq![t@] + tys_view(
                    spec_type_args(args, i + 1),
                ));
            },
            _ => {},
        }
    } else {
        assert(tys_view(spec_type_args(args, i)) =~= Seq::<SpecTy>::empty());
    }
}

proof fn lemma_boxed_wide_view(t: Ty)
    ensures
        match spec_boxed_wide(t) {
            Some(w) => boxed_wide_view(t@) == Some(w@),
            None => boxed_wide_view(t@) is None,
        },
{
    match t {
        Ty::Path(p) => {
            assert(t@ == SpecTy::Path(p@));
            if p.segments@.len() > 0 {
                lemma_last_segment_view(p);
                match p.segments@.last().args {
                    PathArgs::Angle(args) => {
                        lemma_type_args_view(args@, 0);
                        let types = spec_type_args(args@, 0);
                        if types.len() == 1 {
                            assert(tys_view(types)[0] == types[0]@);
                        }
                    },
                    _ => {},
                }
            }
        },
        _ => {},
    }
}

proof fn lemma_inferred_non_option_view(t: Ty, second: bool)
    ensures
        spec_inferred_non_option(t, second) == inferred_non_option_view(t@, second),
    decreases t,
{
    match t {
        Ty::Paren { elem, text } => {
            lemma_inferred_non_option_view(*elem, second);
            assert(t@ == SpecTy::Paren { elem: Box::new((*elem)@), text: text@ });
            assert(spec_inferred_non_option(t, second) == spec_inferred_non_option(*elem, second));
            assert(inferred_non_option_view(t@, second) == inferred_non_option_view((*elem)@, second));
        },
        Ty::Group { elem, text } => {
            lemma_inferred_non_option_view(*elem, second);
            assert(t@ == SpecTy::Group { elem: Box::new((*elem)@), text: text@ });
        },
        _ => {
            lemma_boxed_wide_view(t);
            match t {
                Ty::Tuple(elems) => {
                    assert(t@ == SpecTy::Tuple(tys_view(elems@)));
                    if elems@.len() == 2 {
                        assert(tys_view(elems@)[0] == elems@[0]@);
                        assert(tys_view(elems@)[1] == elems@[1]@);
                    }
                },
                Ty::Reference { lifetime, mutable, elem } => {
                    assert(t@ == SpecTy::Reference {
                        lifetime: match lifetime {
                            Some(l) => Some(l@),
                            None => None,
                        },
                        mutable,
                        elem: Box::new((*elem)@),
                    });
                },
                _ => {},
            }
        },
    }
}

/// The C type of a part depends only on the values of the parameter's type
/// and of the part.
pub proof fn lemma_abi_part_view(arg_ty: Ty, part: UnpackPart, second: bool)
    ensures
        spec_abi_part(arg_ty, part, second) == abi_part_view(arg_ty@, part, second),
{
    lemma_peel_view(arg_ty);
    lemma_option_inner_view(spec_peel(arg_ty));
    match spec_option_inner(spec_peel(arg_ty)) {
        Some(inner) => lemma_inferred_non_option_view(inner, second),
        None => lemma_inferred_non_option_view(spec_peel(arg_ty), second),
    }
    assert((part.logical is Infer) == (part.logical@ is Infer));
}

// ---------------------------------------------------------------------------
// Attributes by value.

/// The value of an attribute's meta.
pub enum MetaValue {
    Path,
    List(Seq<SpecTok>),
    NameValue(Seq<SpecTok>),
}

/// The value of an attribute: its path and its meta.
pub struct AttrValue {
    pub path: Seq<Seq<char>>,
    pub meta: MetaValue,
}

/// The value of an attribute.
pub open spec fn attr_value(a: Attr) -> AttrValue {
    AttrValue {
        path: strings_view(a.path@),
        meta: match a.meta {
            AttrMeta::Path => MetaValue::Path,
            AttrMeta::List(t) => MetaValue::List(toks_view(t@)),
            AttrMeta::NameValue(t) => MetaValue::NameValue(toks_view(t@)),
        },
    }
}

/// The values of attributes.
pub open spec fn attr_values(s: Seq<Attr>) -> Seq<AttrValue> {
    Seq::new(s.len(), |i: int| attr_value(s[i]))
}

/// Whether an attribute's path is the single identifier `name`.
pub open spec fn value_is(a: AttrValue, name: Seq<char>) -> bool {
    a.path.len() == 1 && a.path[0] == name
}

/// The `#[cfg(...)]` attributes among the first `n`, in order.
pub open spec fn cfg_values(s: Seq<AttrValue>, n: int) -> Seq<AttrValue>
    decreases n,
{
    if n <= 0 || n > s.len() {
        Seq::empty()
    } else if value_is(s[n - 1], "cfg"@) {
        cfg_values(s, n - 1).push(s[n - 1])
    } else {
        cfg_values(s, n - 1)
    }
}

/// Whether one of the attributes is `#[by_val]`.
pub open spec fn has_by_val(s: Seq<AttrValue>) -> bool {
    exists|i: int| 0 <= i < s.len() && value_is(#[trigger] s[i], "by_val"@)
}

fn clone_attr(a: &Attr) -> (r: Attr)
    ensures
        attr_value(r) == attr_value(*a),
{
    let meta = match &a.meta {
        AttrMeta::Path => AttrMeta::Path,
        AttrMeta::List(t) => AttrMeta::List(clone_toks(t)),
        AttrMeta::NameValue(t) => AttrMeta::NameValue(clone_toks(t)),
    };
    let path = clone_strings(&a.path);
    Attr { path, meta }
}

fn clone_attrs(v: &Vec<Attr>) -> (r: Vec<Attr>)
    ensures
        attr_values(r@) == attr_values(v@),
{
    let mut out: Vec<Attr> = Vec::new();
    let mut i: usize = 0;
    while i < v.len()
        invariant
            i <= v@.len(),
            attr_values(out@) == attr_values(v@).subrange(0, i as int),
        decreases v@.len() - i,
    {
        let ghost o0 = out@;
        let c = clone_attr(&v[i]);
        out.push(c);
        assert(attr_values(out@) =~= attr_values(o0).push(attr_value(c)));
        i = i + 1;
        assert(attr_values(out@) =~= attr_values(v@).subrange(0, i as int));
    }
    assert(attr_values(v@).subrange(0, v@.len() as int) =~= attr_values(v@));
    out
}

/// The `#[cfg(...)]` attributes, taken out of `v` in order.
fn cfg_attrs(v: Vec<Attr>) -> (r: Vec<Attr>)
    ensures
        attr_values(r@) == cfg_values(attr_values(v@), v@.len() as int),
{
    let ghost v0 = v@;
    let ghost sv = attr_values(v@);
    let n = v.len();
    let mut v = v;
    let mut out: Vec<Attr> = Vec::new();
    let mut k: usize = 0;
    proof {
        reveal_strlit("cfg");
    }
    while k < n
        invariant
            k <= n,
            n == v0.len(),
            sv == attr_values(v0),
            v@ == v0.subrange(k as int, n as int),
            attr_values(out@) == cfg_values(sv, k as int),
        decreases n - k,
    {
        let ghost o0 = out@;
        let a = v.remove(0);
        assert(a == v0[k as int]);
        assert(sv[k as int] == attr_value(a));
        if attr_path_is(&a, "cfg") {
            out.push(a);
            assert(attr_values(out@) =~= attr_values(o0).push(sv[k as int]));
        }
        k = k + 1;
        assert(v@ =~= v0.subrange(k as int, n as int));
    }
    out
}

/// Whether one of the attributes is `#[by_val]`.
fn has_by_val_attr(v: &Vec<Attr>) -> (r: bool)
    ensures
        r == has_by_val(attr_values(v@)),
{
    let ghost sv = attr_values(v@);
    let mut i: usize = 0;
    proof {
        reveal_strlit("by_val");
    }
    while i < v.len()
        invariant
            i <= v@.len(),
            sv == attr_values(v@),
            forall|j: int| 0 <= j < i ==> !value_is(#[trigger] sv[j], "by_val"@),
        decreases v@.len() - i,
    {
        assert(sv[i as int] == attr_value(v@[i as int]));
        if attr_path_is(&v[i], "by_val") {
            assert(value_is(sv[i as int], "by_val"@));
            return true;
        }
        i = i + 1;
    }
    false
}

// ---------------------------------------------------------------------------
// Lowering the parameters and the return type.

/// `<t as co3::borrow::BorrowCast>::AsConst`, the C type through which a
/// borrowed value crosses.
pub open spec fn spec_as_const(t: SpecTy) -> SpecTy {
    SpecTy::Path(
        SpecPath {
            qself: Some((Box::new(t), 3usize, true)),
            leading_colon: false,
            segments: seq![
                SpecSegment { ident: "co3"@, args: SpecArgs::Bare },
                SpecSegment { ident: "borrow"@, args: SpecArgs::Bare },
                SpecSegment { ident: "BorrowCast"@, args: SpecArgs::Bare },
                SpecSegment { ident: "AsConst"@, args: SpecArgs::Bare },
            ],
        },
    )
}

/// The C type of a parameter: its C type where it crosses by value (marked
/// `#[by_val]` or by value anyway), else the borrowed form of it.
pub open spec fn input_arg_type_view(attrs: Seq<AttrValue>, ty: SpecTy) -> SpecTy {
    if has_by_val(attrs) || by_value_view(ty) {
        spec_ctype(ty)
    } else {
        spec_as_const(spec_ctype(ty))
    }
}

/// A lowered parameter: its attributes, pattern and C type.
pub struct LoweredInput {
    pub attrs: Seq<AttrValue>,
    pub pat: Seq<char>,
    pub ty: SpecTy,
}

/// The value of a lowered parameter.
pub open spec fn lowered_of(i: FnInput) -> LoweredInput {
    match i {
        FnInput::Typed { attrs, pat, ty } => LoweredInput { attrs: attr_values(attrs@), pat: pat@, ty: ty@ },
        FnInput::Receiver(_) => LoweredInput { attrs: Seq::empty(), pat: Seq::empty(), ty: SpecTy::Infer },
    }
}

/// The values of lowered parameters.
pub open spec fn lowered_values(s: Seq<FnInput>) -> Seq<LoweredInput> {
    Seq::new(s.len(), |i: int| lowered_of(s[i]))
}

/// The attributes, pattern and type of a parameter, the receiver taken as
/// `__co3_self` of its type with the attributes `rattrs`.
pub open spec fn input_parts(inp: SpecFnInput, rattrs: Seq<AttrValue>) -> (Seq<AttrValue>, Seq<char>, SpecTy) {
    match inp {
        SpecFnInput::Receiver(r) => (rattrs, "__co3_self"@, spec_receiver_ty(r)),
        SpecFnInput::Typed { attrs, pat, ty } => (attr_values(attrs), pat, ty),
    }
}

/// Whether a parameter can be lowered: where it is unpacked, its first
/// `#[unpack]` lists two parts whose C types can be had from its type, and
/// its pattern is an identifier.
pub open spec fn lowerable(inp: SpecFnInput, forms: Seq<UnpackList>, rattrs: Seq<AttrValue>) -> bool {
    let (attrs, pat, ty) = input_parts(inp, rattrs);
    spec_is_unpack_arg(forms) ==> {
        &&& spec_unpack_parts(forms) matches Ok(Some((a, b)))
        &&& abi_part_view(ty, a, false) is Ok
        &&& abi_part_view(ty, b, true) is Ok
        &&& is_ident_text(pat)
    }
}

/// The C parameters of a parameter: an unpacked one as its data part and its
/// metadata part, named after it; another as one parameter of its C type.
/// Each keeps only the `#[cfg(...)]` attributes.
pub open spec fn spec_lower_input(inp: SpecFnInput, forms: Seq<UnpackList>, rattrs: Seq<AttrValue>) -> Seq<LoweredInput> {
    let (attrs, pat, ty) = input_parts(inp, rattrs);
    let cfg = cfg_values(attrs, attrs.len() as int);
    if spec_is_unpack_arg(forms) {
        match spec_unpack_parts(forms) {
            Ok(Some((a, b))) => match (abi_part_view(ty, a, false), abi_part_view(ty, b, true)) {
                (Ok(x), Ok(y)) => seq![
                    LoweredInput { attrs: cfg, pat: "__co3_"@ + pat + "_data"@, ty: x },
                    LoweredInput { attrs: cfg, pat: "__co3_"@ + pat + "_metadata"@, ty: y },
                ],
                _ => Seq::empty(),
            },
            _ => Seq::empty(),
        }
    } else {
        seq![LoweredInput { attrs: cfg, pat, ty: input_arg_type_view(attrs, ty) }]
    }
}

/// `<t as co3::borrow::BorrowCast>::AsConst`.
fn as_const(t: Ty) -> (r: Ty)
    ensures
        r@ == spec_as_const(t@),
{
    let ghost tv = t@;
    let segments = vec![bare_segment("co3"), bare_segment("borrow"), bare_segment("BorrowCast"), bare_segment("AsConst")];
    proof {
        reveal_strlit("co3");
        reveal_strlit("borrow");
        reveal_strlit("BorrowCast");
        reveal_strlit("AsConst");
        assert(segments_view(segments@) =~= seq![
            SpecSegment { ident: "co3"@, args: SpecArgs::Bare },
            SpecSegment { ident: "borrow"@, args: SpecArgs::Bare },
            SpecSegment { ident: "BorrowCast"@, args: SpecArgs::Bare },
            SpecSegment { ident: "AsConst"@, args: SpecArgs::Bare },
        ]);
    }
    let p = TyPath { qself: Some(QSelf { ty: Box::new(t), position: 3, has_as: true }), leading_colon: false, segments };
    assert(crate::types::path_view(p) == SpecPath {
        qself: Some((Box::new(tv), 3usize, true)),
        leading_colon: false,
        segments: seq![
            SpecSegment { ident: "co3"@, args: SpecArgs::Bare },
            SpecSegment { ident: "borrow"@, args: SpecArgs::Bare },
            SpecSegment { ident: "BorrowCast"@, args: SpecArgs::Bare },
            SpecSegment { ident: "AsConst"@, args: SpecArgs::Bare },
        ],
    });
    let r = Ty::Path(p);
    assert(r@ == SpecTy::Path(crate::types::path_view(p)));
    r
}

/// `__co3_{name}{suffix}`.
fn part_name(name: &str, suffix: &str) -> (r: String)
    ensures
        r@ == "__co3_"@ + name@ + suffix@,
{
    let mut out: Vec<char> = Vec::new();
    push_str(&mut out, "__co3_");
    push_str(&mut out, name);
    push_str(&mut out, suffix);
    string_of(&out)
}

/// The names of the data and metadata parameters of an unpacked parameter.
pub fn unpack_arg_names(arg_name: &str) -> (r: (String, String))
    ensures
        r.0@ == "__co3_"@ + arg_name@ + "_data"@,
        r.1@ == "__co3_"@ + arg_name@ + "_metadata"@,
{
    (part_name(arg_name, "_data"), part_name(arg_name, "_metadata"))
}

/// The C type of a parameter with these attributes.
pub fn item_fn_input_arg_type(attrs: &Vec<Attr>, arg_ty: Ty) -> (r: Ty)
    ensures
        r@ == input_arg_type_view(attr_values(attrs@), arg_ty@),
{
    proof {
        lemma_by_value_view(arg_ty);
    }
    let by_value = has_by_val_attr(attrs) || crate::types::is_implicitly_by_value(&arg_ty);
    if by_value {
        ctype(arg_ty)
    } else {
        as_const(ctype(arg_ty))
    }
}

/// The C type of a return type.
pub fn item_fn_output_type(return_ty: Ty) -> (r: Ty)
    ensures
        r@ == spec_ctype(return_ty@),
{
    ctype(return_ty)
}

/// The C parameters of one parameter (the receiver with the attributes
/// `receiver_attrs`): an unpacked one split into its data and metadata
/// parts, another as one parameter of its C type; each keeps only its
/// `#[cfg(...)]` attributes.
pub fn lower_signature_input(input: FnInput, forms: &Vec<UnpackList>, receiver_attrs: &Vec<Attr>) -> (r: Vec<FnInput>)
    requires
        lowerable(input@, forms@, attr_values(receiver_attrs@)),
    ensures
        lowered_values(r@) == spec_lower_input(input@, forms@, attr_values(receiver_attrs@)),
{
    let ghost parts = input_parts(input@, attr_values(receiver_attrs@));
    let (attrs, pat, ty) = match input {
        FnInput::Receiver(rc) => {
            let t = crate::self_ty::receiver_ty(rc);
            proof {
                reveal_strlit("__co3_self");
            }
            (clone_attrs(receiver_attrs), "__co3_self".to_owned(), t)
        },
        FnInput::Typed { attrs, pat, ty } => (attrs, pat, ty),
    };
    assert(attr_values(attrs@) == parts.0 && pat@ == parts.1 && ty@ == parts.2);
    if crate::unpack::is_unpack_arg(forms) {
        let ghost tv = ty@;
        let r = crate::unpack::unpack_abi_parts(forms, &ty);
        proof {
            let (a, b) = spec_unpack_parts(forms@)->Ok_0->Some_0;
            lemma_abi_part_view(ty, a, false);
            lemma_abi_part_view(ty, b, true);
        }
        let (x, y) = match r {
            Ok(parts) => parts,
            Err(_) => {
                proof {
                    assert(false);
                }
                return Vec::new();
            },
        };
        let cfg = cfg_attrs(attrs);
        let cfg2 = clone_attrs(&cfg);
        let (data, metadata) = unpack_arg_names(pat.as_str());
        let first = FnInput::Typed { attrs: cfg, pat: data, ty: x };
        let second = FnInput::Typed { attrs: cfg2, pat: metadata, ty: y };
        let out = vec![first, second];
        assert(lowered_values(out@) =~= spec_lower_input(input@, forms@, attr_values(receiver_attrs@)));
        out
    } else {
        let lowered = item_fn_input_arg_type(&attrs, ty);
        let cfg = cfg_attrs(attrs);
        let one = FnInput::Typed { attrs: cfg, pat, ty: lowered };
        let out = vec![one];
        assert(lowered_values(out@) =~= spec_lower_input(input@, forms@, attr_values(receiver_attrs@)));
        out
    }
}

/// The C parameters of the first `n` parameters, in order.
pub open spec fn spec_lower_inputs(
    s: Seq<SpecFnInput>,
    forms: Seq<Vec<UnpackList>>,
    rattrs: Seq<AttrValue>,
    n: int,
) -> Seq<LoweredInput>
    decreases n,
{
    if n <= 0 || n > s.len() || n > forms.len() {
        Seq::empty()
    } else {
        spec_lower_inputs(s, forms, rattrs, n - 1) + spec_lower_input(s[n - 1], forms[n - 1]@, rattrs)
    }
}

/// Whether every parameter can be lowered, each with its `#[unpack]`
/// attributes.
pub open spec fn all_lowerable(s: Seq<SpecFnInput>, forms: Seq<Vec<UnpackList>>, rattrs: Seq<AttrValue>) -> bool {
    &&& forms.len() == s.len()
    &&& forall|i: int| 0 <= i < s.len() ==> lowerable(#[trigger] s[i], forms[i]@, rattrs)
}

/// Lowers every parameter, in order.
pub fn lower_signature_inputs(inputs: Vec<FnInput>, forms: &Vec<Vec<UnpackList>>, receiver_attrs: &Vec<Attr>) -> (r: Vec<FnInput>)
    requires
        all_lowerable(inputs_view(inputs@), forms@, attr_values(receiver_attrs@)),
    ensures
        lowered_values(r@) == spec_lower_inputs(
            inputs_view(inputs@),
            forms@,
            attr_values(receiver_attrs@),
            inputs@.len() as int,
        ),
{
    let ghost v0 = inputs@;
    let ghost sv = inputs_view(inputs@);
    let ghost ra = attr_values(receiver_attrs@);
    let n = inputs.len();
    let mut v = inputs;
    let mut out: Vec<FnInput> = Vec::new();
    let mut k: usize = 0;
    while k < n
        invariant
            k <= n,
            n == v0.len(),
            sv == inputs_view(v0),
            ra == attr_values(receiver_attrs@),
            all_lowerable(sv, forms@, ra),
            v@ == v0.subrange(k as int, n as int),
            lowered_values(out@) == spec_lower_inputs(sv, forms@, ra, k as int),
        decreases n - k,
    {
        let ghost o0 = out@;
        let e = v.remove(0);
        assert(e == v0[k as int]);
        assert(sv[k as int] == e@);
        assert(lowerable(sv[k as int], forms@[k as int]@, ra));
        let mut lowered = lower_signature_input(e, &forms[k], receiver_attrs);
        let ghost l0 = lowered@;
        out.append(&mut lowered);
        assert(lowered_values(out@) =~= lowered_values(o0) + lowered_values(l0));
        k = k + 1;
        assert(v@ =~= v0.subrange(k as int, n as int));
    }
    out
}

// ---------------------------------------------------------------------------
// The whole signature.

/// The bound `co3::Error`.
pub open spec fn spec_error_bound() -> SpecBound {
    SpecBound::Trait {
        maybe: false,
        binder: Seq::empty(),
        path: SpecPath {
            qself: None,
            leading_colon: false,
            segments: seq![
                SpecSegment { ident: "co3"@, args: SpecArgs::Bare },
                SpecSegment { ident: "Error"@, args: SpecArgs::Bare },
            ],
        },
    }
}

/// Where failures are reported as errors, the return type must be an
/// error type: `Ret: co3::Error` is added to the where clause.
pub open spec fn spec_with_error_bound(sig: SpecSig, failure_mode: FailureMode) -> SpecSig {
    match sig.output {
        Some(t) => if failure_mode == FailureMode::Error {
            SpecSig {
                where_clause: Some(
                    match sig.where_clause {
                        Some(w) => w,
                        None => Seq::empty(),
                    }.push(SpecWherePredicate::Type { ty: t, bounds: seq![spec_error_bound()] }),
                ),
                ..sig
            }
        } else {
            sig
        },
        None => sig,
    }
}

/// Which parameters are unpacked.
pub open spec fn unpack_flags(forms: Seq<Vec<UnpackList>>) -> Seq<bool> {
    Seq::new(forms.len(), |i: int| spec_is_unpack_arg(forms[i]@))
}

/// The signature before its parameters and return type are lowered: the
/// error bound added, the lifetimes made explicit and the outlives bounds
/// written out.
pub open spec fn spec_prepared(sig: SpecSig, failure_mode: FailureMode, forms: Seq<Vec<UnpackList>>) -> SpecSig {
    spec_synthesize(spec_explicitize(spec_with_error_bound(sig, failure_mode)), unpack_flags(forms))
}

fn add_error_bound(sig: &mut FnSig, failure_mode: FailureMode)
    ensures
        final(sig)@ == spec_with_error_bound(old(sig)@, failure_mode),
{
    let ghost s0 = sig@;
    if !matches!(failure_mode, FailureMode::Error) {
        return;
    }
    let t = match &sig.output {
        Some(t) => clone_ty(t),
        None => {
            return;
        },
    };
    assert(s0.output == Some(t@));
    let segments = vec![bare_segment("co3"), bare_segment("Error")];
    proof {
        reveal_strlit("co3");
        reveal_strlit("Error");
        assert(segments_view(segments@) =~= seq![
            SpecSegment { ident: "co3"@, args: SpecArgs::Bare },
            SpecSegment { ident: "Error"@, args: SpecArgs::Bare },
        ]);
    }
    let path = TyPath { qself: None, leading_colon: false, segments };
    let b = Bound::Trait { maybe: false, binder: Vec::new(), path };
    assert(strings_view(Seq::<String>::empty()) =~= Seq::<Seq<char>>::empty());
    assert(crate::types::bound_view(b) == spec_error_bound());
    let bounds = vec![b];
    assert(bounds_view(bounds@) =~= seq![spec_error_bound()]);
    let pred = WherePredicate::Type { ty: t, bounds };
    let mut taken: Option<Vec<WherePredicate>> = None;
    std::mem::swap(&mut taken, &mut sig.where_clause);
    let mut w = match taken {
        Some(w) => w,
        None => Vec::new(),
    };
    let ghost w0 = w@;
    w.push(pred);
    assert(predicates_view(w@) =~= predicates_view(w0).push(pred@));
    assert(pred@ == SpecWherePredicate::Type { ty: t@, bounds: seq![spec_error_bound()] });
    sig.where_clause = Some(w);
    assert(sig@.where_clause == Some(predicates_view(w@)));
    assert(predicates_view(w0) == match s0.where_clause {
        Some(w) => w,
        None => Seq::<SpecWherePredicate>::empty(),
    });
}

/// The C signature of a function: where failures are errors, the return
/// type is bound by `co3::Error`; the lifetimes are made explicit and the
/// outlives bounds written out (unpacked parameters aside); then each
/// parameter is lowered to its C parameters (the receiver with the
/// attributes `receiver_attrs`) and the return type to its C type.
pub fn lower_extern_fn_signature(
    sig: &mut FnSig,
    failure_mode: FailureMode,
    forms: &Vec<Vec<UnpackList>>,
    receiver_attrs: &Vec<Attr>,
)
    requires
        all_lowerable(
            spec_prepared(old(sig)@, failure_mode, forms@).inputs,
            forms@,
            attr_values(receiver_attrs@),
        ),
    ensures
        ({
            let p = spec_prepared(old(sig)@, failure_mode, forms@);
            &&& final(sig)@.generics == p.generics
            &&& final(sig)@.where_clause == p.where_clause
            &&& lowered_values(final(sig).inputs@) == spec_lower_inputs(
                p.inputs,
                forms@,
                attr_values(receiver_attrs@),
                p.inputs.len() as int,
            )
            &&& final(sig)@.output == match p.output {
                Some(t) => Some(spec_ctype(t)),
                None => None,
            }
        }),
{
    add_error_bound(sig, failure_mode);
    crate::lifetimes::explicitize_signature_lifetimes(sig);
    let mut flags: Vec<bool> = Vec::new();
    let mut i: usize = 0;
    while i < forms.len()
        invariant
            i <= forms@.len(),
            flags@ == unpack_flags(forms@).subrange(0, i as int),
        decreases forms@.len() - i,
    {
        flags.push(crate::unpack::is_unpack_arg(&forms[i]));
        i = i + 1;
        assert(flags@ =~= unpack_flags(forms@).subrange(0, i as int));
    }
    assert(flags@ =~= unpack_flags(forms@));
    crate::outlives::synthesize_lifetime_bounds(sig, &flags);
    let ghost p = sig@;
    let mut inputs: Vec<FnInput> = Vec::new();
    std::mem::swap(&mut inputs, &mut sig.inputs);
    assert(inputs_view(inputs@) == p.inputs);
    let lowered = lower_signature_inputs(inputs, forms, receiver_attrs);
    sig.inputs = lowered;
    let mut output: Option<Ty> = None;
    std::mem::swap(&mut output, &mut sig.output);
    sig.output = match output {
        Some(t) => Some(item_fn_output_type(t)),
        None => None,
    };
}

/// The C signature of a raw declaration: that of `lower_extern_fn_signature`,
/// with the return type, unless the function moves it out (`move fn`),
/// taken in its borrowed form `<CType as co3::borrow::BorrowCast>::AsConst`.
pub fn lower_raw_fn_signature(
    sig: &mut FnSig,
    failure_mode: FailureMode,
    move_fn: bool,
    forms: &Vec<Vec<UnpackList>>,
    receiver_attrs: &Vec<Attr>,
)
    requires
        all_lowerable(
            spec_prepared(old(sig)@, failure_mode, forms@).inputs,
            forms@,
            attr_values(receiver_attrs@),
        ),
    ensures
        ({
            let p = spec_prepared(old(sig)@, failure_mode, forms@);
            &&& final(sig)@.generics == p.generics
            &&& final(sig)@.where_clause == p.where_clause
            &&& lowered_values(final(sig).inputs@) == spec_lower_inputs(
                p.inputs,
                forms@,
                attr_values(receiver_attrs@),
                p.inputs.len() as int,
            )
            &&& final(sig)@.output == match p.output {
                Some(t) => Some(
                    if move_fn {
                        spec_ctype(t)
                    } else {
                        spec_as_const(spec_ctype(t))
                    },
                ),
                None => None,
            }
        }),
{
    lower_extern_fn_signature(sig, failure_mode, forms, receiver_attrs);
    if !move_fn {
        let mut output: Option<Ty> = None;
        std::mem::swap(&mut output, &mut sig.output);
        sig.output = match output {
            Some(t) => Some(as_const(t)),
            None => None,
        };
    }
}

// ---------------------------------------------------------------------------
// Laws.

/// How many of the first `n` parameters are unpacked.
pub open spec fn unpacked_count(forms: Seq<Vec<UnpackList>>, n: int) -> int
    decreases n,
{
    if n <= 0 {
        0
    } else if spec_is_unpack_arg(forms[n - 1]@) {
        unpacked_count(forms, n - 1) + 1
    } else {
        unpacked_count(forms, n - 1)
    }
}

/// Lowering gives one C parameter for each parameter that is not unpacked
/// and two for each unpacked one, and every C parameter carries only
/// `#[cfg(...)]` attributes.
pub proof fn lemma_lowered_parameter_count(
    s: Seq<SpecFnInput>,
    forms: Seq<Vec<UnpackList>>,
    rattrs: Seq<AttrValue>,
    n: int,
)
    requires
        0 <= n <= s.len(),
        all_lowerable(s, forms, rattrs),
    ensures
        spec_lower_inputs(s, forms, rattrs, n).len() == n + unpacked_count(forms, n),
        forall|i: int, j: int|
            0 <= i < spec_lower_inputs(s, forms, rattrs, n).len() && 0 <= j < spec_lower_inputs(
                s,
                forms,
                rattrs,
                n,
            )[i].attrs.len() ==> value_is(#[trigger] spec_lower_inputs(s, forms, rattrs, n)[i].attrs[j], "cfg"@),
    decreases n,
{
    if n > 0 {
        lemma_lowered_parameter_count(s, forms, rattrs, n - 1);
        assert(lowerable(s[n - 1], forms[n - 1]@, rattrs));
        let (attrs, pat, ty) = input_parts(s[n - 1], rattrs);
        lemma_cfg_values(attrs, attrs.len() as int);
        let before = spec_lower_inputs(s, forms, rattrs, n - 1);
        let last = spec_lower_input(s[n - 1], forms[n - 1]@, rattrs);
        assert(spec_lower_inputs(s, forms, rattrs, n) == before + last);
        assert forall|i: int, j: int|
            0 <= i < (before + last).len() && 0 <= j < (before + last)[i].attrs.len() implies value_is(
            #[trigger] (before + last)[i].attrs[j],
            "cfg"@,
        ) by {
            if i >= before.len() {
                assert(last[i - before.len()].attrs == cfg_values(attrs, attrs.len() as int));
            } else {
                assert((before + last)[i] == before[i]);
            }
        }
    }
}

/// The attributes that `cfg_values` keeps are `#[cfg(...)]` ones.
proof fn lemma_cfg_values(s: Seq<AttrValue>, n: int)
    ensures
        forall|j: int| 0 <= j < cfg_values(s, n).len() ==> value_is(#[trigger] cfg_values(s, n)[j], "cfg"@),
    decreases n,
{
    if n > 0 && n <= s.len() {
        lemma_cfg_values(s, n - 1);
        let before = cfg_values(s, n - 1);
        if value_is(s[n - 1], "cfg"@) {
            assert forall|j: int| 0 <= j < before.push(s[n - 1]).len() implies value_is(
                #[trigger] before.push(s[n - 1])[j],
                "cfg"@,
            ) by {
                if j < before.len() {
                    assert(before.push(s[n - 1])[j] == before[j]);
                }
            }
        }
    }
}

// ---------------------------------------------------------------------------
// What a raw declaration may be.

/// Why a function cannot have a raw C companion, with the position of the
/// parameter concerned.
#[derive(Debug, Clone, Copy, PartialEq, Eq, Structural)]
pub enum RawDeclError {
    /// The function is async, unsafe, variadic or generic, or has more than
    /// twelve parameters.
    Unsupported,
    /// A receiver that is not the first parameter.
    ReceiverNotFirst { index: usize },
    /// A parameter whose pattern is not an identifier.
    NotIdent { index: usize },
}

impl RawDeclError {
    /// The message of the error.
    pub fn message(&self) -> (s: &'static str)
        ensures
            s@ == match *self {
                RawDeclError::Unsupported => "raw function declarations require a safe, synchronous, non-generic function with at most 12 arguments"@,
                RawDeclError::ReceiverNotFirst { .. } => "raw function receiver must be first"@,
                RawDeclError::NotIdent { .. } => "raw function parameters must be identifiers"@,
            },
    {
        match self {
            RawDeclError::Unsupported => "raw function declarations require a safe, synchronous, non-generic function with at most 12 arguments",
            RawDeclError::ReceiverNotFirst { .. } => "raw function receiver must be first",
            RawDeclError::NotIdent { .. } => "raw function parameters must be identifiers",
        }
    }
}

/// Whether a pattern, as written, binds one identifier: `x`, `mut x`,
/// `ref x` or `ref mut x`.
pub open spec fn is_ident_pattern(t: Seq<char>) -> bool {
    ||| is_ident_text(t)
    ||| (t.len() > 4 && t.subrange(0, 4) == "mut "@ && is_ident_text(t.subrange(4, t.len() as int)))
    ||| (t.len() > 4 && t.subrange(0, 4) == "ref "@ && is_ident_text(t.subrange(4, t.len() as int)))
    ||| (t.len() > 8 && t.subrange(0, 8) == "ref mut "@ && is_ident_text(t.subrange(8, t.len() as int)))
}

/// The first of the parameters from `i` on that is a receiver other than
/// the first parameter, or whose pattern is not an identifier.
pub open spec fn spec_first_bad_param(s: Seq<SpecFnInput>, i: int) -> Option<RawDeclError>
    decreases s.len() - i,
{
    if i < 0 || i >= s.len() {
        None
    } else {
        match s[i] {
            SpecFnInput::Receiver(_) => if i == 0 {
                spec_first_bad_param(s, i + 1)
            } else {
                Some(RawDeclError::ReceiverNotFirst { index: i as usize })
            },
            SpecFnInput::Typed { pat, .. } => if is_ident_pattern(pat) {
                spec_first_bad_param(s, i + 1)
            } else {
                Some(RawDeclError::NotIdent { index: i as usize })
            },
        }
    }
}

/// Whether a function can have a raw C companion: it is safe, synchronous,
/// not variadic, without generic parameters or where predicates, with at
/// most twelve parameters, a receiver only first, and identifiers for
/// patterns.
pub open spec fn spec_validate_raw_decl(sig: SpecSig, is_async: bool, is_unsafe: bool, variadic: bool) -> Result<(), RawDeclError> {
    if is_async || is_unsafe || variadic || sig.inputs.len() > 12 || sig.generics.len() > 0 || (
    sig.where_clause matches Some(w) && w.len() > 0) {
        Err(RawDeclError::Unsupported)
    } else {
        match spec_first_bad_param(sig.inputs, 0) {
            Some(e) => Err(e),
            None => Ok(()),
        }
    }
}

/// Whether the text is an identifier.
fn ident_text(t: &Vec<char>, from: usize) -> (r: bool)
    requires
        from <= t@.len(),
    ensures
        r == is_ident_text(t@.subrange(from as int, t@.len() as int)),
{
    let ghost x = t@.subrange(from as int, t@.len() as int);
    if from >= t.len() {
        return false;
    }
    let c = t[from];
    assert(x[0] == c);
    if !(c == '_' || crate::text::ascii_alpha(c)) {
        return false;
    }
    let mut k: usize = from + 1;
    while k < t.len()
        invariant
            from < k <= t@.len(),
            x == t@.subrange(from as int, t@.len() as int),
            forall|j: int| 1 <= j < k - from ==> crate::text::is_symbol_char(#[trigger] x[j]),
        decreases t@.len() - k,
    {
        let d = t[k];
        assert(x[k - from] == d);
        if !(d == '_' || crate::text::ascii_alnum(d)) {
            return false;
        }
        k = k + 1;
    }
    true
}

/// Whether the first `n` characters are those of `prefix`.
fn starts_with(t: &Vec<char>, prefix: &str) -> (r: bool)
    ensures
        r == (t@.len() >= prefix@.len() && t@.subrange(0, prefix@.len() as int) == prefix@),
{
    let p = crate::text::chars_of(prefix);
    if t.len() < p.len() {
        return false;
    }
    let mut i: usize = 0;
    while i < p.len()
        invariant
            i <= p@.len() <= t@.len(),
            p@ == prefix@,
            forall|j: int| 0 <= j < i ==> t@[j] == p@[j],
        decreases p@.len() - i,
    {
        if t[i] != p[i] {
            return false;
        }
        i = i + 1;
    }
    assert(t@.subrange(0, p@.len() as int) =~= p@);
    true
}

/// Whether a pattern, as written, binds one identifier.
fn ident_pattern(pat: &str) -> (r: bool)
    ensures
        r == is_ident_pattern(pat@),
{
    let t = crate::text::chars_of(pat);
    proof {
        reveal_strlit("mut ");
        reveal_strlit("ref ");
        reveal_strlit("ref mut ");
    }
    if ident_text(&t, 0) {
        assert(t@.subrange(0, t@.len() as int) =~= t@);
        return true;
    }
    assert(t@.subrange(0, t@.len() as int) =~= t@);
    let m = t.len() > 4 && starts_with(&t, "mut ") && ident_text(&t, 4);
    let r1 = t.len() > 4 && starts_with(&t, "ref ") && ident_text(&t, 4);
    let r2 = t.len() > 8 && starts_with(&t, "ref mut ") && ident_text(&t, 8);
    m || r1 || r2
}

/// Checks that a function can have a raw C companion: it is safe,
/// synchronous, not variadic, without generic parameters or where
/// predicates, with at most twelve parameters, a receiver only first, and
/// identifiers for patterns.
#[verifier::loop_isolation(false)]
pub fn validate_raw_decl(sig: &FnSig, is_async: bool, is_unsafe: bool, variadic: bool) -> (r: Result<(), RawDeclError>)
    ensures
        r == spec_validate_raw_decl(sig@, is_async, is_unsafe, variadic),
{
    let has_predicates = match &sig.where_clause {
        Some(w) => w.len() > 0,
        None => false,
    };
    if is_async || is_unsafe || variadic || sig.inputs.len() > 12 || sig.generics.len() > 0 || has_predicates {
        return Err(RawDeclError::Unsupported);
    }
    assert(!(sig@.where_clause matches Some(w) && w.len() > 0));
    let ghost sv = sig@.inputs;
    let mut i: usize = 0;
    while i < sig.inputs.len()
        invariant
            i <= sig.inputs@.len(),
            sv == sig@.inputs,
            sv == inputs_view(sig.inputs@),
            spec_first_bad_param(sv, 0) == spec_first_bad_param(sv, i as int),
        decreases sig.inputs@.len() - i,
    {
        assert(sv[i as int] == sig.inputs@[i as int]@);
        match &sig.inputs[i] {
            FnInput::Receiver(_) => {
                if i != 0 {
                    return Err(RawDeclError::ReceiverNotFirst { index: i });
                }
            },
            FnInput::Typed { pat, .. } => {
                if !ident_pattern(pat.as_str()) {
                    return Err(RawDeclError::NotIdent { index: i });
                }
            },
        }
        i = i + 1;
    }
    Ok(())
}

} // verus!
