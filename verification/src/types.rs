//! A plain model of Rust types, and the decisions the macros make from a
//! type's shape.
use vstd::prelude::*;
use crate::text::str_eq;
use crate::tokens::{Attr, attr_is_ident, attr_path_is};

verus! {

/// A type path, possibly qualified: `<qself as Trait>::Assoc` has the self
/// type `qself`, with `position` leading segments naming the trait.
#[derive(Debug, PartialEq, Eq)]
pub struct TyPath {
    pub qself: Option<QSelf>,
    pub leading_colon: bool,
    pub segments: Vec<PathSegment>,
}

/// The qualified self type of a path.
#[derive(Debug, PartialEq, Eq)]
pub struct QSelf {
    pub ty: Box<Ty>,
    pub position: usize,
    pub has_as: bool,
}

/// One segment of a path with its arguments.
#[derive(Debug, PartialEq, Eq)]
pub struct PathSegment {
    pub ident: String,
    pub args: PathArgs,
}

/// The arguments of a path segment.
#[derive(Debug, PartialEq, Eq)]
pub enum PathArgs {
    Bare,
    Angle(Vec<GenericArg>),
    Parenthesized(Vec<Ty>, Option<Box<Ty>>),
}

/// A generic argument; constant expressions are kept as their text.
#[derive(Debug, PartialEq, Eq)]
pub enum GenericArg {
    Lifetime(String),
    Type(Ty),
    Const(String),
    AssocType(String, Ty),
    AssocConst(String, String),
    Constraint(String, Vec<Bound>),
    Other(String),
}

/// A bound of a trait object, `impl Trait` type or constraint.
#[derive(Debug, PartialEq, Eq)]
pub enum Bound {
    Trait { maybe: bool, binder: Vec<String>, path: TyPath },
    Lifetime(String),
    Other(String),
}

/// A Rust type. Lifetimes are held by name without the apostrophe, so an
/// elided `'_` is `"_"`. Nodes whose symbol name is taken from their text
/// carry that text. A function pointer keeps its `for<...>` lifetimes and its
/// return type; its parameters form a lifetime scope of their own that no
/// rule here looks into.
#[derive(Debug, PartialEq, Eq)]
pub enum Ty {
    Path(TyPath),
    Reference { lifetime: Option<String>, mutable: bool, elem: Box<Ty> },
    Ptr { mutable: bool, elem: Box<Ty> },
    Slice(Box<Ty>),
    Array { elem: Box<Ty>, len: String },
    Tuple(Vec<Ty>),
    FnPtr { binder: Vec<String>, output: Option<Box<Ty>>, text: String },
    ImplTrait { bounds: Vec<Bound>, text: String },
    TraitObject { bounds: Vec<Bound>, text: String },
    Paren { elem: Box<Ty>, text: String },
    Group { elem: Box<Ty>, text: String },
    Infer,
    Other(String),
}

/// How an argument crosses the boundary.
#[derive(Debug, Clone, Copy, PartialEq, Eq, Structural)]
pub enum OwnershipMode {
    Borrow,
    ByValue,
}

/// What a tag id type `<dyn Trait>::TAG` names.
#[derive(Debug, PartialEq, Eq)]
pub enum TagId {
    DynSelf,
    DynType(String),
}

/// The type inside any parentheses and invisible groups.
pub open spec fn spec_peel(ty: Ty) -> Ty
    decreases ty,
{
    match ty {
        Ty::Paren { elem, .. } => spec_peel(*elem),
        Ty::Group { elem, .. } => spec_peel(*elem),
        _ => ty,
    }
}

/// Looks through parentheses and invisible groups.
pub fn peel_grouped_type(ty: &Ty) -> (r: &Ty)
    ensures
        *r == spec_peel(*ty),
    decreases ty,
{
    match ty {
        Ty::Paren { elem, .. } => peel_grouped_type(elem),
        Ty::Group { elem, .. } => peel_grouped_type(elem),
        _ => ty,
    }
}

/// The last segment of a path, if it has any.
pub open spec fn spec_last_segment(p: TyPath) -> Option<PathSegment> {
    if p.segments@.len() > 0 {
        Some(p.segments@.last())
    } else {
        None
    }
}

/// The `T` of a type `...::Option<T>`.
pub open spec fn spec_option_inner(ty: Ty) -> Option<Ty> {
    match ty {
        Ty::Path(p) => match spec_last_segment(p) {
            Some(seg) => if seg.ident@ == "Option"@ {
                match seg.args {
                    PathArgs::Angle(args) => if args@.len() == 1 {
                        match args@[0] {
                            GenericArg::Type(inner) => Some(inner),
                            _ => None,
                        }
                    } else {
                        None
                    },
                    _ => None,
                }
            } else {
                None
            },
            None => None,
        },
        _ => None,
    }
}

/// The `T` of a type `...::Option<T>`.
pub fn option_inner_type(ty: &Ty) -> (r: Option<&Ty>)
    ensures
        match r {
            Some(inner) => spec_option_inner(*ty) == Some(*inner),
            None => spec_option_inner(*ty) is None,
        },
{
    match ty {
        Ty::Path(p) => {
            if p.segments.len() == 0 {
                return None;
            }
            let seg = &p.segments[p.segments.len() - 1];
            if !str_eq(seg.ident.as_str(), "Option") {
                return None;
            }
            match &seg.args {
                PathArgs::Angle(args) => {
                    if args.len() != 1 {
                        return None;
                    }
                    match &args[0] {
                        GenericArg::Type(inner) => Some(inner),
                        _ => None,
                    }
                },
                _ => None,
            }
        },
        _ => None,
    }
}

/// The type arguments among the generic arguments `i..`, in order.
pub open spec fn spec_type_args(args: Seq<GenericArg>, i: int) -> Seq<Ty>
    decreases args.len() - i,
{
    if i < 0 || i >= args.len() {
        Seq::empty()
    } else {
        match args[i] {
            GenericArg::Type(t) => seq![t] + spec_type_args(args, i + 1),
            _ => spec_type_args(args, i + 1),
        }
    }
}

/// The `T` of a type `...::Box<T>` with exactly one type argument.
pub open spec fn spec_boxed_wide(ty: Ty) -> Option<Ty> {
    match ty {
        Ty::Path(p) => match spec_last_segment(p) {
            Some(seg) => if seg.ident@ == "Box"@ {
                match seg.args {
                    PathArgs::Angle(args) => {
                        let types = spec_type_args(args@, 0);
                        if types.len() == 1 {
                            Some(types[0])
                        } else {
                            None
                        }
                    },
                    _ => None,
                }
            } else {
                None
            },
            None => None,
        },
        _ => None,
    }
}

/// The `T` of a type `...::Box<T>` with exactly one type argument.
pub fn boxed_wide_type(ty: &Ty) -> (r: Option<&Ty>)
    ensures
        match r {
            Some(inner) => spec_boxed_wide(*ty) == Some(*inner),
            None => spec_boxed_wide(*ty) is None,
        },
{
    match ty {
        Ty::Path(p) => {
            if p.segments.len() == 0 {
                return None;
            }
            let seg = &p.segments[p.segments.len() - 1];
            if !str_eq(seg.ident.as_str(), "Box") {
                return None;
            }
            match &seg.args {
                PathArgs::Angle(args) => {
                    let mut found: Option<&Ty> = None;
                    let mut i: usize = args.len();
                    let mut count: usize = 0;
                    while i > 0
                        invariant
                            i <= args.len(),
                            count <= args.len() - i,
                            count == spec_type_args(args@, i as int).len(),
                            count > 0 ==> (found matches Some(f) && *f == spec_type_args(
                                args@,
                                i as int,
                            )[0]),
                        decreases i,
                    {
                        i = i - 1;
                        match &args[i] {
                            GenericArg::Type(t) => {
                                found = Some(t);
                                count = count + 1;
                            },
                            _ => {},
                        }
                    }
                    if count == 1 {
                        found
                    } else {
                        None
                    }
                },
                _ => None,
            }
        },
        _ => None,
    }
}

/// The two element types of a two-element tuple.
pub fn tuple_parts(ty: &Ty) -> (r: Option<(&Ty, &Ty)>)
    ensures
        match r {
            Some((a, b)) => (ty matches Ty::Tuple(elems) && elems@.len() == 2 && *a == elems@[0]
                && *b == elems@[1]),
            None => !(ty matches Ty::Tuple(elems) && elems@.len() == 2),
        },
{
    match ty {
        Ty::Tuple(elems) => if elems.len() == 2 {
            Some((&elems[0], &elems[1]))
        } else {
            None
        },
        _ => None,
    }
}

/// Whether the arguments of a segment are empty: none, or `<>`.
pub open spec fn spec_args_empty(args: PathArgs) -> bool {
    match args {
        PathArgs::Bare => true,
        PathArgs::Angle(a) => a@.len() == 0,
        PathArgs::Parenthesized(..) => false,
    }
}

/// Whether a name is one of the primitive `Copy` types.
pub open spec fn is_copy_primitive_name(s: Seq<char>) -> bool {
    s == "bool"@ || s == "char"@ || s == "u8"@ || s == "u16"@ || s == "u32"@ || s == "u64"@ || s
        == "u128"@ || s == "usize"@ || s == "i8"@ || s == "i16"@ || s == "i32"@ || s == "i64"@
        || s == "i128"@ || s == "isize"@ || s == "f32"@ || s == "f64"@
}

/// Whether an unqualified path ends in a primitive `Copy` type without arguments.
pub open spec fn spec_copy_primitive_path(p: TyPath) -> bool {
    p.qself is None && match spec_last_segment(p) {
        Some(seg) => spec_args_empty(seg.args) && is_copy_primitive_name(seg.ident@),
        None => false,
    }
}

/// Tests whether a name is one of the primitive `Copy` types.
pub fn copy_primitive_name(s: &str) -> (r: bool)
    ensures
        r == is_copy_primitive_name(s@),
{
    str_eq(s, "bool") || str_eq(s, "char") || str_eq(s, "u8") || str_eq(s, "u16") || str_eq(
        s,
        "u32",
    ) || str_eq(s, "u64") || str_eq(s, "u128") || str_eq(s, "usize") || str_eq(s, "i8") || str_eq(
        s,
        "i16",
    ) || str_eq(s, "i32") || str_eq(s, "i64") || str_eq(s, "i128") || str_eq(s, "isize")
        || str_eq(s, "f32") || str_eq(s, "f64")
}

/// Tests whether an unqualified path ends in a primitive `Copy` type.
pub fn is_copy_primitive_path(p: &TyPath) -> (r: bool)
    ensures
        r == spec_copy_primitive_path(*p),
{
    if p.qself.is_some() || p.segments.len() == 0 {
        return false;
    }
    let seg = &p.segments[p.segments.len() - 1];
    let empty = match &seg.args {
        PathArgs::Bare => true,
        PathArgs::Angle(a) => a.len() == 0,
        PathArgs::Parenthesized(..) => false,
    };
    empty && copy_primitive_name(seg.ident.as_str())
}

/// What a tag id type `<dyn Trait>::TAG` names: the self type of the path is a
/// trait object of one plain trait bound, named by at most one segment.
pub open spec fn spec_tag_id(ty: Ty) -> Option<TagId> {
    match ty {
        Ty::Path(p) => match p.qself {
            Some(q) => if q.position == 0 && !q.has_as && p.segments@.len() == 1
                && p.segments@[0].ident@ == "TAG"@ && p.segments@[0].args is Bare {
                match *q.ty {
                    Ty::TraitObject { bounds, .. } => if bounds@.len() == 1 {
                        match bounds@[0] {
                            Bound::Trait { maybe, binder, path } => if !maybe && binder@.len() == 0
                                && path.segments@.len() <= 1 {
                                if spec_path_is_ident(path, "Self"@) {
                                    Some(TagId::DynSelf)
                                } else if path.segments@.len() == 1 {
                                    Some(TagId::DynType(path.segments@[0].ident))
                                } else {
                                    None
                                }
                            } else {
                                None
                            },
                            _ => None,
                        }
                    } else {
                        None
                    },
                    _ => None,
                }
            } else {
                None
            },
            None => None,
        },
        _ => None,
    }
}

/// Whether a path is the single identifier `name`.
pub open spec fn spec_path_is_ident(p: TyPath, name: Seq<char>) -> bool {
    p.qself is None && !p.leading_colon && p.segments@.len() == 1 && p.segments@[0].args is Bare
        && p.segments@[0].ident@ == name
}

/// Tests whether a path is the single identifier `name`.
pub fn path_is_ident(p: &TyPath, name: &str) -> (r: bool)
    ensures
        r == spec_path_is_ident(*p, name@),
{
    p.qself.is_none() && !p.leading_colon && p.segments.len() == 1 && match &p.segments[0].args {
        PathArgs::Bare => true,
        _ => false,
    } && str_eq(p.segments[0].ident.as_str(), name)
}

/// What a tag id type names (see `spec_tag_id`).
pub fn tag_id(ty: &Ty) -> (r: Option<TagId>)
    ensures
        r == spec_tag_id(*ty),
{
    proof {
        reveal_strlit("TAG");
    }
    match ty {
        Ty::Path(p) => match &p.qself {
            Some(q) => {
                if !(q.position == 0 && !q.has_as && p.segments.len() == 1 && match &p.segments[0].args {
                    PathArgs::Bare => true,
                    _ => false,
                } && str_eq(p.segments[0].ident.as_str(), "TAG")) {
                    return None;
                }
                match &*q.ty {
                    Ty::TraitObject { bounds, .. } => {
                        if bounds.len() != 1 {
                            return None;
                        }
                        match &bounds[0] {
                            Bound::Trait { maybe, binder, path } => {
                                if *maybe || binder.len() != 0 || path.segments.len() > 1 {
                                    None
                                } else if path_is_ident(path, "Self") {
                                    Some(TagId::DynSelf)
                                } else if path.segments.len() == 1 {
                                    Some(TagId::DynType(path.segments[0].ident.clone()))
                                } else {
                                    None
                                }
                            },
                            _ => None,
                        }
                    },
                    _ => None,
                }
            },
            None => None,
        },
        _ => None,
    }
}

/// Whether the type is a tag id type.
pub fn is_tag_id(ty: &Ty) -> (r: bool)
    ensures
        r == spec_tag_id(*ty) is Some,
{
    match ty {
        Ty::Path(p) => match &p.qself {
            Some(q) => {
                if !(q.position == 0 && !q.has_as && p.segments.len() == 1 && match &p.segments[0].args {
                    PathArgs::Bare => true,
                    _ => false,
                } && str_eq(p.segments[0].ident.as_str(), "TAG")) {
                    return false;
                }
                match &*q.ty {
                    Ty::TraitObject { bounds, .. } => {
                        if bounds.len() != 1 {
                            return false;
                        }
                        match &bounds[0] {
                            Bound::Trait { maybe, binder, path } => !*maybe && binder.len() == 0
                                && path.segments.len() == 1,
                            _ => false,
                        }
                    },
                    _ => false,
                }
            },
            None => false,
        },
        _ => false,
    }
}

/// Whether an argument of this type crosses by value without being marked:
/// tag ids, references, raw and function pointers, primitive `Copy` types,
/// `Option`s of such types, and non-empty tuples of such types.
pub open spec fn spec_implicitly_by_value(ty: Ty) -> bool
    decreases ty, 0int,
{
    match ty {
        Ty::Paren { elem, .. } => spec_implicitly_by_value(*elem),
        Ty::Group { elem, .. } => spec_implicitly_by_value(*elem),
        _ => if spec_tag_id(ty) is Some {
            true
        } else {
            match ty {
                Ty::Reference { .. } | Ty::Ptr { .. } | Ty::FnPtr { .. } => true,
                Ty::Path(p) => spec_copy_primitive_path(p) || (p.segments@.len() > 0 && {
                    let seg = p.segments@.last();
                    seg.ident@ == "Option"@ && match seg.args {
                        PathArgs::Angle(args) => args@.len() == 1 && match args@[0] {
                            GenericArg::Type(inner) => spec_implicitly_by_value(inner),
                            _ => false,
                        },
                        _ => false,
                    }
                }),
                Ty::Tuple(elems) => elems@.len() > 0 && spec_all_by_value(elems@, 0),
                _ => false,
            }
        },
    }
}

/// Whether every type of `s` from `i` on crosses by value without being marked.
pub open spec fn spec_all_by_value(s: Seq<Ty>, i: int) -> bool
    decreases s, s.len() - i,
{
    if i < 0 || i >= s.len() {
        true
    } else {
        spec_implicitly_by_value(s[i]) && spec_all_by_value(s, i + 1)
    }
}

/// Tests whether an argument of this type crosses by value without being marked.
pub fn is_implicitly_by_value(ty: &Ty) -> (r: bool)
    ensures
        r == spec_implicitly_by_value(*ty),
    decreases ty,
{
    match ty {
        Ty::Paren { elem, .. } => return is_implicitly_by_value(elem),
        Ty::Group { elem, .. } => return is_implicitly_by_value(elem),
        _ => {},
    }
    if is_tag_id(ty) {
        return true;
    }
    assert(spec_tag_id(*ty) is None);
    match ty {
        Ty::Reference { .. } | Ty::Ptr { .. } | Ty::FnPtr { .. } => {
            assert(spec_implicitly_by_value(*ty));
            true
        },
        Ty::Path(p) => {
            if is_copy_primitive_path(p) {
                return true;
            }
            if p.segments.len() == 0 {
                return false;
            }
            let seg = &p.segments[p.segments.len() - 1];
            if !str_eq(seg.ident.as_str(), "Option") {
                return false;
            }
            match &seg.args {
                PathArgs::Angle(args) => {
                    if args.len() != 1 {
                        return false;
                    }
                    match &args[0] {
                        GenericArg::Type(inner) => {
                            let r = is_implicitly_by_value(inner);
                            assert(p.segments@.last() == *seg);
                            assert(r == spec_implicitly_by_value(*ty));
                            r
                        },
                        _ => false,
                    }
                },
                _ => false,
            }
        },
        Ty::Tuple(elems) => {
            if elems.len() == 0 {
                return false;
            }
            let mut i: usize = 0;
            while i < elems.len()
                invariant
                    i <= elems.len(),
                    *ty == Ty::Tuple(*elems),
                    spec_all_by_value(elems@, 0) == spec_all_by_value(elems@, i as int),
                decreases elems.len() - i,
            {
                proof {
                    assert(decreases_to!(*ty => (*ty)->Tuple_0));
                    assert(decreases_to!(*elems => elems@));
                    assert(decreases_to!(elems@ => elems@[i as int]));
                    assert(decreases_to!(*ty => elems@[i as int]));
                }
                if !is_implicitly_by_value(&elems[i]) {
                    return false;
                }
                i = i + 1;
            }
            true
        },
        _ => false,
    }
}

/// Whether an attribute is `#[by_val]`.
pub open spec fn spec_is_by_val_attr(attr: Attr) -> bool {
    attr_is_ident(attr, "by_val"@)
}

/// How an argument crosses the boundary: by value when it is marked
/// `#[by_val]` or its type crosses by value anyway, borrowed otherwise.
pub open spec fn spec_ownership_mode(attrs: Seq<Attr>, ty: Ty) -> OwnershipMode {
    if (exists|i: int| 0 <= i < attrs.len() && #[trigger] spec_is_by_val_attr(attrs[i]))
        || spec_implicitly_by_value(ty) {
        OwnershipMode::ByValue
    } else {
        OwnershipMode::Borrow
    }
}

/// Decides how an argument crosses the boundary.
pub fn ownership_mode_for_arg(attrs: &Vec<Attr>, ty: &Ty) -> (r: OwnershipMode)
    ensures
        r == spec_ownership_mode(attrs@, *ty),
{
    let mut i: usize = 0;
    while i < attrs.len()
        invariant
            i <= attrs.len(),
            forall|j: int| 0 <= j < i ==> !#[trigger] spec_is_by_val_attr(attrs@[j]),
        decreases attrs.len() - i,
    {
        if attr_path_is(&attrs[i], "by_val") {
            assert(spec_is_by_val_attr(attrs@[i as int]));
            return OwnershipMode::ByValue;
        }
        i = i + 1;
    }
    if is_implicitly_by_value(ty) {
        OwnershipMode::ByValue
    } else {
        OwnershipMode::Borrow
    }
}

pub(crate) fn clone_strings(v: &Vec<String>) -> (r: Vec<String>)
    ensures
        r@ == v@,
{
    let mut out: Vec<String> = Vec::new();
    let mut i: usize = 0;
    while i < v.len()
        invariant
            i <= v.len(),
            out@ == v@.subrange(0, i as int),
        decreases v.len() - i,
    {
        out.push(v[i].clone());
        i = i + 1;
        assert(out@ =~= v@.subrange(0, i as int));
    }
    assert(out@ =~= v@);
    out
}

pub(crate) fn clone_ty(t: &Ty) -> (r: Ty)
    ensures
        r@ == t@,
    decreases t, 0int,
{
    match t {
        Ty::Path(p) => {
            proof {
                assert(decreases_to!(*t => (*t)->Path_0));
            }
            Ty::Path(clone_path(p))
        },
        Ty::Reference { lifetime, mutable, elem } => {
            proof {
                assert(decreases_to!(*t => (*t)->Reference_elem));
            }
            Ty::Reference { lifetime: lifetime.clone(), mutable: *mutable, elem: Box::new(clone_ty(elem)) }
        },
        Ty::Ptr { mutable, elem } => {
            proof {
                assert(decreases_to!(*t => (*t)->Ptr_elem));
            }
            Ty::Ptr { mutable: *mutable, elem: Box::new(clone_ty(elem)) }
        },
        Ty::Slice(elem) => {
            proof {
                assert(decreases_to!(*t => (*t)->Slice_0));
            }
            Ty::Slice(Box::new(clone_ty(elem)))
        },
        Ty::Array { elem, len } => {
            proof {
                assert(decreases_to!(*t => (*t)->Array_elem));
            }
            Ty::Array { elem: Box::new(clone_ty(elem)), len: len.clone() }
        },
        Ty::Tuple(elems) => {
            proof {
                assert(decreases_to!(*t => (*t)->Tuple_0));
            }
            let v = clone_tys(elems);
            assert(tys_view(v@) =~= tys_view(elems@));
            Ty::Tuple(v)
        },
        Ty::FnPtr { binder, output, text } => {
            let out = match output {
                Some(o) => {
                    proof {
                        assert(decreases_to!(*t => (*t)->FnPtr_output));
                        assert(decreases_to!((*t)->FnPtr_output => (*t)->FnPtr_output->0));
                    }
                    Some(Box::new(clone_ty(o)))
                },
                None => None,
            };
            let r = Ty::FnPtr { binder: clone_strings(binder), output: out, text: text.clone() };
            assert((r@)->FnPtr_binder =~= (t@)->FnPtr_binder);
            r
        },
        Ty::ImplTrait { bounds, text } => {
            proof {
                assert(decreases_to!(*t => (*t)->ImplTrait_bounds));
            }
            let v = clone_bounds(bounds);
            assert(bounds_view(v@) =~= bounds_view(bounds@));
            Ty::ImplTrait { bounds: v, text: text.clone() }
        },
        Ty::TraitObject { bounds, text } => {
            proof {
                assert(decreases_to!(*t => (*t)->TraitObject_bounds));
            }
            let v = clone_bounds(bounds);
            assert(bounds_view(v@) =~= bounds_view(bounds@));
            Ty::TraitObject { bounds: v, text: text.clone() }
        },
        Ty::Paren { elem, text } => {
            proof {
                assert(decreases_to!(*t => (*t)->Paren_elem));
            }
            Ty::Paren { elem: Box::new(clone_ty(elem)), text: text.clone() }
        },
        Ty::Group { elem, text } => {
            proof {
                assert(decreases_to!(*t => (*t)->Group_elem));
            }
            Ty::Group { elem: Box::new(clone_ty(elem)), text: text.clone() }
        },
        Ty::Infer => Ty::Infer,
        Ty::Other(text) => Ty::Other(text.clone()),
    }
}

fn clone_tys(v: &Vec<Ty>) -> (r: Vec<Ty>)
    ensures
        r@.len() == v@.len(),
        forall|i: int| 0 <= i < v@.len() ==> (#[trigger] r@[i])@ == v@[i]@,
    decreases v, 1int,
{
    let mut out: Vec<Ty> = Vec::new();
    let mut i: usize = 0;
    while i < v.len()
        invariant
            i <= v.len(),
            out@.len() == i,
            forall|j: int| 0 <= j < i ==> (#[trigger] out@[j])@ == v@[j]@,
        decreases v.len() - i,
    {
        proof {
            assert(decreases_to!(*v => v@));
            assert(decreases_to!(v@ => v@[i as int]));
        }
        out.push(clone_ty(&v[i]));
        i = i + 1;
    }
    out
}

pub(crate) fn clone_path(p: &TyPath) -> (r: TyPath)
    ensures
        r@ == p@,
    decreases p, 0int,
{
    let qself = match &p.qself {
        Some(q) => {
            proof {
                assert(decreases_to!(*p => p.qself));
                assert(decreases_to!(p.qself => p.qself->0));
                assert(decreases_to!(p.qself->0 => p.qself->0.ty));
            }
            Some(QSelf { ty: Box::new(clone_ty(&q.ty)), position: q.position, has_as: q.has_as })
        },
        None => None,
    };
    proof {
        assert(decreases_to!(*p => p.segments));
    }
    let r = TyPath { qself, leading_colon: p.leading_colon, segments: clone_segments(&p.segments) };
    assert(r@.segments =~= p@.segments);
    r
}

fn clone_segments(v: &Vec<PathSegment>) -> (r: Vec<PathSegment>)
    ensures
        r@.len() == v@.len(),
        forall|i: int|
            0 <= i < v@.len() ==> (#[trigger] r@[i]).ident@ == v@[i].ident@ && r@[i].args@
                == v@[i].args@,
    decreases v, 1int,
{
    let mut out: Vec<PathSegment> = Vec::new();
    let mut i: usize = 0;
    while i < v.len()
        invariant
            i <= v.len(),
            out@.len() == i,
            forall|j: int|
                0 <= j < i ==> (#[trigger] out@[j]).ident@ == v@[j].ident@ && out@[j].args@
                    == v@[j].args@,
        decreases v.len() - i,
    {
        proof {
            assert(decreases_to!(*v => v@));
            assert(decreases_to!(v@ => v@[i as int]));
            assert(decreases_to!(v@[i as int] => v@[i as int].args));
        }
        let seg = &v[i];
        out.push(PathSegment { ident: seg.ident.clone(), args: clone_path_args(&seg.args) });
        i = i + 1;
    }
    out
}

pub(crate) fn clone_path_args(a: &PathArgs) -> (r: PathArgs)
    ensures
        r@ == a@,
    decreases a, 0int,
{
    match a {
        PathArgs::Bare => PathArgs::Bare,
        PathArgs::Angle(args) => {
            proof {
                assert(decreases_to!(*a => (*a)->Angle_0));
            }
            let r = PathArgs::Angle(clone_generic_args(args));
            assert((r@)->Angle_0 =~= (a@)->Angle_0);
            r
        },
        PathArgs::Parenthesized(inputs, output) => {
            proof {
                assert(decreases_to!(*a => (*a)->Parenthesized_0));
            }
            let ins = clone_tys(inputs);
            let out = match output {
                Some(o) => {
                    proof {
                        assert(decreases_to!(*a => (*a)->Parenthesized_1));
                        assert(decreases_to!((*a)->Parenthesized_1 => (*a)->Parenthesized_1->0));
                    }
                    Some(Box::new(clone_ty(o)))
                },
                None => None,
            };
            let r = PathArgs::Parenthesized(ins, out);
            assert((r@)->Parenthesized_0 =~= (a@)->Parenthesized_0);
            r
        },
    }
}

fn clone_generic_args(v: &Vec<GenericArg>) -> (r: Vec<GenericArg>)
    ensures
        r@.len() == v@.len(),
        forall|i: int| 0 <= i < v@.len() ==> (#[trigger] r@[i])@ == v@[i]@,
    decreases v, 1int,
{
    let mut out: Vec<GenericArg> = Vec::new();
    let mut i: usize = 0;
    while i < v.len()
        invariant
            i <= v.len(),
            out@.len() == i,
            forall|j: int| 0 <= j < i ==> (#[trigger] out@[j])@ == v@[j]@,
        decreases v.len() - i,
    {
        proof {
            assert(decreases_to!(*v => v@));
            assert(decreases_to!(v@ => v@[i as int]));
        }
        out.push(clone_generic_arg(&v[i]));
        i = i + 1;
    }
    out
}

fn clone_generic_arg(a: &GenericArg) -> (r: GenericArg)
    ensures
        r@ == a@,
    decreases a, 0int,
{
    match a {
        GenericArg::Lifetime(l) => GenericArg::Lifetime(l.clone()),
        GenericArg::Type(t) => {
            proof {
                assert(decreases_to!(*a => (*a)->Type_0));
            }
            GenericArg::Type(clone_ty(t))
        },
        GenericArg::Const(text) => GenericArg::Const(text.clone()),
        GenericArg::AssocType(name, t) => {
            proof {
                assert(decreases_to!(*a => (*a)->AssocType_1));
            }
            GenericArg::AssocType(name.clone(), clone_ty(t))
        },
        GenericArg::AssocConst(name, text) => GenericArg::AssocConst(name.clone(), text.clone()),
        GenericArg::Constraint(name, bounds) => {
            proof {
                assert(decreases_to!(*a => (*a)->Constraint_1));
            }
            let r = GenericArg::Constraint(name.clone(), clone_bounds(bounds));
            assert((r@)->Constraint_1 =~= (a@)->Constraint_1);
            r
        },
        GenericArg::Other(text) => GenericArg::Other(text.clone()),
    }
}

pub(crate) fn clone_bounds(v: &Vec<Bound>) -> (r: Vec<Bound>)
    ensures
        r@.len() == v@.len(),
        forall|i: int| 0 <= i < v@.len() ==> (#[trigger] r@[i])@ == v@[i]@,
    decreases v, 1int,
{
    let mut out: Vec<Bound> = Vec::new();
    let mut i: usize = 0;
    while i < v.len()
        invariant
            i <= v.len(),
            out@.len() == i,
            forall|j: int| 0 <= j < i ==> (#[trigger] out@[j])@ == v@[j]@,
        decreases v.len() - i,
    {
        proof {
            assert(decreases_to!(*v => v@));
            assert(decreases_to!(v@ => v@[i as int]));
        }
        out.push(clone_bound(&v[i]));
        i = i + 1;
    }
    out
}

fn clone_bound(b: &Bound) -> (r: Bound)
    ensures
        r@ == b@,
    decreases b, 0int,
{
    match b {
        Bound::Trait { maybe, binder, path } => {
            proof {
                assert(decreases_to!(*b => (*b)->path));
            }
            let r = Bound::Trait {
                maybe: *maybe,
                binder: clone_strings(binder),
                path: clone_path(path),
            };
            assert((r@)->binder =~= (b@)->binder);
            r
        },
        Bound::Lifetime(l) => Bound::Lifetime(l.clone()),
        Bound::Other(text) => Bound::Other(text.clone()),
    }
}

impl Clone for Ty {
    fn clone(&self) -> (r: Self)
        ensures
            r@ == self@,
    {
        clone_ty(self)
    }
}

impl Clone for TyPath {
    fn clone(&self) -> (r: Self)
        ensures
            r@ == self@,
    {
        clone_path(self)
    }
}

impl Clone for PathArgs {
    fn clone(&self) -> (r: Self)
        ensures
            r@ == self@,
    {
        clone_path_args(self)
    }
}

impl Clone for GenericArg {
    fn clone(&self) -> (r: Self)
        ensures
            r@ == self@,
    {
        clone_generic_arg(self)
    }
}

impl Clone for Bound {
    fn clone(&self) -> (r: Self)
        ensures
            r@ == self@,
    {
        clone_bound(self)
    }
}


/// The mathematical value of a type: the same tree, with sequences and
/// character sequences in place of vectors and strings.
pub enum SpecTy {
    Path(SpecPath),
    Reference { lifetime: Option<Seq<char>>, mutable: bool, elem: Box<SpecTy> },
    Ptr { mutable: bool, elem: Box<SpecTy> },
    Slice(Box<SpecTy>),
    Array { elem: Box<SpecTy>, len: Seq<char> },
    Tuple(Seq<SpecTy>),
    FnPtr { binder: Seq<Seq<char>>, output: Option<Box<SpecTy>>, text: Seq<char> },
    ImplTrait { bounds: Seq<SpecBound>, text: Seq<char> },
    TraitObject { bounds: Seq<SpecBound>, text: Seq<char> },
    Paren { elem: Box<SpecTy>, text: Seq<char> },
    Group { elem: Box<SpecTy>, text: Seq<char> },
    Infer,
    Other(Seq<char>),
}

/// The value of a path.
pub struct SpecPath {
    pub qself: Option<(Box<SpecTy>, usize, bool)>,
    pub leading_colon: bool,
    pub segments: Seq<SpecSegment>,
}

/// The value of a path segment.
pub struct SpecSegment {
    pub ident: Seq<char>,
    pub args: SpecArgs,
}

/// The value of a segment's arguments.
pub enum SpecArgs {
    Bare,
    Angle(Seq<SpecArg>),
    Parenthesized(Seq<SpecTy>, Option<Box<SpecTy>>),
}

/// The value of a generic argument.
pub enum SpecArg {
    Lifetime(Seq<char>),
    Type(SpecTy),
    Const(Seq<char>),
    AssocType(Seq<char>, SpecTy),
    AssocConst(Seq<char>, Seq<char>),
    Constraint(Seq<char>, Seq<SpecBound>),
    Other(Seq<char>),
}

/// The value of a bound.
pub enum SpecBound {
    Trait { maybe: bool, binder: Seq<Seq<char>>, path: SpecPath },
    Lifetime(Seq<char>),
    Other(Seq<char>),
}

/// The values of a sequence of strings.
pub open spec fn strings_view(s: Seq<String>) -> Seq<Seq<char>> {
    Seq::new(s.len(), |i: int| s[i]@)
}

/// The values of a sequence of types.
pub open spec fn tys_view(s: Seq<Ty>) -> Seq<SpecTy>
    decreases s, 1int,
{
    Seq::new(s.len(), |i: int| if 0 <= i < s.len() { ty_view(s[i]) } else { SpecTy::Infer })
}

/// The values of a sequence of bounds.
pub open spec fn bounds_view(s: Seq<Bound>) -> Seq<SpecBound>
    decreases s, 1int,
{
    Seq::new(
        s.len(),
        |i: int| if 0 <= i < s.len() { bound_view(s[i]) } else { SpecBound::Other(Seq::empty()) },
    )
}

/// The values of a sequence of generic arguments.
pub open spec fn generic_args_view(s: Seq<GenericArg>) -> Seq<SpecArg>
    decreases s, 1int,
{
    Seq::new(
        s.len(),
        |i: int| if 0 <= i < s.len() { generic_arg_view(s[i]) } else { SpecArg::Other(Seq::empty()) },
    )
}

/// The values of a sequence of path segments.
pub open spec fn segments_view(s: Seq<PathSegment>) -> Seq<SpecSegment>
    decreases s, 1int,
{
    Seq::new(
        s.len(),
        |i: int|
            if 0 <= i < s.len() {
                SpecSegment { ident: s[i].ident@, args: path_args_view(s[i].args) }
            } else {
                SpecSegment { ident: Seq::empty(), args: SpecArgs::Bare }
            },
    )
}

/// The value of a type.
pub open spec fn ty_view(t: Ty) -> SpecTy
    decreases t, 0int,
{
    match t {
        Ty::Path(p) => SpecTy::Path(path_view(p)),
        Ty::Reference { lifetime, mutable, elem } => SpecTy::Reference {
            lifetime: match lifetime {
                Some(l) => Some(l@),
                None => None,
            },
            mutable,
            elem: Box::new(ty_view(*elem)),
        },
        Ty::Ptr { mutable, elem } => SpecTy::Ptr { mutable, elem: Box::new(ty_view(*elem)) },
        Ty::Slice(elem) => SpecTy::Slice(Box::new(ty_view(*elem))),
        Ty::Array { elem, len } => SpecTy::Array { elem: Box::new(ty_view(*elem)), len: len@ },
        Ty::Tuple(elems) => SpecTy::Tuple(tys_view(elems@)),
        Ty::FnPtr { binder, output, text } => SpecTy::FnPtr {
            binder: strings_view(binder@),
            output: match output {
                Some(o) => Some(Box::new(ty_view(*o))),
                None => None,
            },
            text: text@,
        },
        Ty::ImplTrait { bounds, text } => SpecTy::ImplTrait { bounds: bounds_view(bounds@), text: text@ },
        Ty::TraitObject { bounds, text } => SpecTy::TraitObject {
            bounds: bounds_view(bounds@),
            text: text@,
        },
        Ty::Paren { elem, text } => SpecTy::Paren { elem: Box::new(ty_view(*elem)), text: text@ },
        Ty::Group { elem, text } => SpecTy::Group { elem: Box::new(ty_view(*elem)), text: text@ },
        Ty::Infer => SpecTy::Infer,
        Ty::Other(text) => SpecTy::Other(text@),
    }
}

/// The value of a path.
pub open spec fn path_view(p: TyPath) -> SpecPath
    decreases p, 0int,
{
    SpecPath {
        qself: match p.qself {
            Some(q) => Some((Box::new(ty_view(*q.ty)), q.position, q.has_as)),
            None => None,
        },
        leading_colon: p.leading_colon,
        segments: segments_view(p.segments@),
    }
}

/// The value of a segment's arguments.
pub open spec fn path_args_view(a: PathArgs) -> SpecArgs
    decreases a, 0int,
{
    match a {
        PathArgs::Bare => SpecArgs::Bare,
        PathArgs::Angle(args) => SpecArgs::Angle(generic_args_view(args@)),
        PathArgs::Parenthesized(inputs, output) => SpecArgs::Parenthesized(
            tys_view(inputs@),
            match output {
                Some(o) => Some(Box::new(ty_view(*o))),
                None => None,
            },
        ),
    }
}

/// The value of a generic argument.
pub open spec fn generic_arg_view(a: GenericArg) -> SpecArg
    decreases a, 0int,
{
    match a {
        GenericArg::Lifetime(l) => SpecArg::Lifetime(l@),
        GenericArg::Type(t) => SpecArg::Type(ty_view(t)),
        GenericArg::Const(text) => SpecArg::Const(text@),
        GenericArg::AssocType(name, t) => SpecArg::AssocType(name@, ty_view(t)),
        GenericArg::AssocConst(name, text) => SpecArg::AssocConst(name@, text@),
        GenericArg::Constraint(name, bounds) => SpecArg::Constraint(name@, bounds_view(bounds@)),
        GenericArg::Other(text) => SpecArg::Other(text@),
    }
}

/// The value of a bound.
pub open spec fn bound_view(b: Bound) -> SpecBound
    decreases b, 0int,
{
    match b {
        Bound::Trait { maybe, binder, path } => SpecBound::Trait {
            maybe,
            binder: strings_view(binder@),
            path: path_view(path),
        },
        Bound::Lifetime(l) => SpecBound::Lifetime(l@),
        Bound::Other(text) => SpecBound::Other(text@),
    }
}

impl View for Ty {
    type V = SpecTy;

    open spec fn view(&self) -> SpecTy {
        ty_view(*self)
    }
}

impl View for TyPath {
    type V = SpecPath;

    open spec fn view(&self) -> SpecPath {
        path_view(*self)
    }
}

impl View for PathArgs {
    type V = SpecArgs;

    open spec fn view(&self) -> SpecArgs {
        path_args_view(*self)
    }
}

impl View for GenericArg {
    type V = SpecArg;

    open spec fn view(&self) -> SpecArg {
        generic_arg_view(*self)
    }
}

impl View for Bound {
    type V = SpecBound;

    open spec fn view(&self) -> SpecBound {
        bound_view(*self)
    }
}


/// Whether a name is one of Rust's integer, float, `bool` and `char`
/// primitive types.
pub open spec fn is_rust_scalar_name(n: Seq<char>) -> bool {
    n == "bool"@ || n == "char"@ || n == "u8"@ || n == "u16"@ || n == "u32"@ || n == "u64"@ || n == "u128"@ || n == "usize"@ || n == "i8"@ || n == "i16"@ || n == "i32"@ || n == "i64"@ || n == "i128"@ || n == "isize"@ || n == "f32"@ || n == "f64"@
}

/// An argument whose type is a plain path ending in a Rust integer, float,
/// `bool` or `char` primitive (`i32`, `std::primitive::u8`, ...) crosses by
/// value without being marked; so does every reference and raw pointer.
pub proof fn lemma_scalar_arguments_by_value(attrs: Seq<Attr>, p: TyPath, elem: Ty, lifetime: Option<String>, mutable: bool)
    requires
        p.qself is None,
        p.segments@.len() > 0,
        p.segments@[p.segments@.len() - 1].args is Bare,
        is_rust_scalar_name(p.segments@[p.segments@.len() - 1].ident@),
    ensures
        spec_ownership_mode(attrs, Ty::Path(p)) == OwnershipMode::ByValue,
        spec_ownership_mode(attrs, Ty::Reference { lifetime, mutable, elem: Box::new(elem) }) == OwnershipMode::ByValue,
        spec_ownership_mode(attrs, Ty::Ptr { mutable, elem: Box::new(elem) }) == OwnershipMode::ByValue,
{
    assert(spec_last_segment(p) == Some(p.segments@[p.segments@.len() - 1]));
    assert(spec_copy_primitive_path(p));
}

/// An unmarked argument whose type is a plain path that names neither a
/// scalar primitive nor `Option` (`String`, `Vec<u8>`, ...) is borrowed.
pub proof fn lemma_other_path_arguments_borrowed(attrs: Seq<Attr>, p: TyPath)
    requires
        forall|i: int| 0 <= i < attrs.len() ==> !#[trigger] spec_is_by_val_attr(attrs[i]),
        p.qself is None,
        p.segments@.len() > 0,
        !is_rust_scalar_name(p.segments@[p.segments@.len() - 1].ident@),
        p.segments@[p.segments@.len() - 1].ident@ != "Option"@,
    ensures
        spec_ownership_mode(attrs, Ty::Path(p)) == OwnershipMode::Borrow,
{
    assert(spec_last_segment(p) == Some(p.segments@[p.segments@.len() - 1]));
    assert(!spec_copy_primitive_path(p));
    assert(p.segments@.last() == p.segments@[p.segments@.len() - 1]);
}

} // verus!
