//! The `#[unpack]` attribute of a parameter, which passes one Rust value as
//! two C parameters: a data part and a metadata part.
use vstd::prelude::*;
use crate::types::{
    PathArgs, PathSegment, QSelf, SpecArg, SpecArgs, SpecPath, SpecSegment, SpecTy, Ty, TyPath,
    boxed_wide_type, clone_ty, generic_args_view, option_inner_type, peel_grouped_type,
    segments_view, spec_boxed_wide, spec_option_inner, spec_peel, tuple_parts,
};

verus! {

// ---------------------------------------------------------------------------
// The attribute's parts.

/// One part of an `#[unpack(...)]` list: the logical type, `_` to infer it
/// from the parameter's type, and the ABI type written after `=>`, if any.
#[derive(Debug, PartialEq, Eq)]
pub struct UnpackPart {
    pub logical: Ty,
    pub abi: Option<Ty>,
}

/// One `#[unpack]` attribute as it was read: not a list, or the parts of its
/// list; where the list stopped parsing, the parts read before that point
/// and the parser's message.
#[derive(Debug, PartialEq, Eq)]
pub enum UnpackList {
    NotList,
    Parts(Vec<UnpackPart>),
    Invalid { parsed: Vec<UnpackPart>, message: String },
}

/// Why the `#[unpack]` attribute of a parameter was refused.
#[derive(Debug, PartialEq, Eq)]
pub enum UnpackError {
    /// The two-part form is not a list of exactly two parts.
    TwoParts,
    /// The ABI type of the part at this position is `_`.
    InferredAbi { part: usize },
    /// The list does not parse.
    Syntax { message: String },
    /// The one-part form gives an ABI type.
    OnePartAbi,
    /// A part to be inferred (the first or the second) is inferred from a
    /// type that cannot be split.
    Inferred { second: bool },
}

/// The value of an unpack error.
pub enum SpecUnpackError {
    TwoParts,
    InferredAbi { part: int },
    Syntax { message: Seq<char> },
    OnePartAbi,
    Inferred { second: bool },
}

impl View for UnpackError {
    type V = SpecUnpackError;

    open spec fn view(&self) -> SpecUnpackError {
        match self {
            UnpackError::TwoParts => SpecUnpackError::TwoParts,
            UnpackError::InferredAbi { part } => SpecUnpackError::InferredAbi { part: *part as int },
            UnpackError::Syntax { message } => SpecUnpackError::Syntax { message: message@ },
            UnpackError::OnePartAbi => SpecUnpackError::OnePartAbi,
            UnpackError::Inferred { second } => SpecUnpackError::Inferred { second: *second },
        }
    }
}

/// The message of an unpack error.
pub open spec fn spec_unpack_message(e: SpecUnpackError) -> Seq<char> {
    match e {
        SpecUnpackError::TwoParts => "#[unpack] expects exactly two parts"@,
        SpecUnpackError::InferredAbi { .. } => "the ABI type after `=>` cannot be `_`"@,
        SpecUnpackError::Syntax { message } => message,
        SpecUnpackError::OnePartAbi => "the one-part #[unpack] form does not support ABI erasure"@,
        SpecUnpackError::Inferred { second } => if second {
            "the second `_` unpack argument is only supported for two-element tuples, references to `Wide` types, and `Box`es of `Wide` types"@
        } else {
            "the first `_` unpack argument is only supported for two-element tuples, references to `Wide` types, and `Box`es of `Wide` types"@
        },
    }
}

impl UnpackError {
    /// The message of the error.
    pub fn message(&self) -> (s: String)
        ensures
            s@ == spec_unpack_message(self@),
    {
        match self {
            UnpackError::TwoParts => String::from_str("#[unpack] expects exactly two parts"),
            UnpackError::InferredAbi { .. } => String::from_str("the ABI type after `=>` cannot be `_`"),
            UnpackError::Syntax { message } => message.clone(),
            UnpackError::OnePartAbi => String::from_str(
                "the one-part #[unpack] form does not support ABI erasure",
            ),
            UnpackError::Inferred { second } => if *second {
                String::from_str(
                    "the second `_` unpack argument is only supported for two-element tuples, references to `Wide` types, and `Box`es of `Wide` types",
                )
            } else {
                String::from_str(
                    "the first `_` unpack argument is only supported for two-element tuples, references to `Wide` types, and `Box`es of `Wide` types",
                )
            },
        }
    }
}

/// The first of the first `k` parts whose ABI type is `_`.
pub open spec fn spec_first_inferred_abi(ps: Seq<UnpackPart>, k: int) -> Option<int>
    decreases k,
{
    if k <= 0 {
        None
    } else {
        match spec_first_inferred_abi(ps, k - 1) {
            Some(j) => Some(j),
            None => if ps[k - 1].abi matches Some(Ty::Infer) {
                Some(k - 1)
            } else {
                None
            },
        }
    }
}

/// What reading the list of an attribute gives: nothing where it is not a
/// list; else its parts, or the first error, a part whose ABI type is `_`
/// coming before a later syntax error.
pub open spec fn spec_list_parse(l: UnpackList) -> Option<Result<Seq<UnpackPart>, SpecUnpackError>> {
    match l {
        UnpackList::NotList => None,
        UnpackList::Parts(ps) => Some(
            match spec_first_inferred_abi(ps@, ps@.len() as int) {
                Some(j) => Err(SpecUnpackError::InferredAbi { part: j }),
                None => Ok(ps@),
            },
        ),
        UnpackList::Invalid { parsed, message } => Some(
            match spec_first_inferred_abi(parsed@, parsed@.len() as int) {
                Some(j) => Err(SpecUnpackError::InferredAbi { part: j }),
                None => Err(SpecUnpackError::Syntax { message: message@ }),
            },
        ),
    }
}

/// The first part whose ABI type is `_`.
fn first_inferred_abi(ps: &Vec<UnpackPart>) -> (r: Option<usize>)
    ensures
        match r {
            Some(j) => spec_first_inferred_abi(ps@, ps@.len() as int) == Some(j as int),
            None => spec_first_inferred_abi(ps@, ps@.len() as int) is None,
        },
{
    let mut k: usize = 0;
    while k < ps.len()
        invariant
            k <= ps@.len(),
            spec_first_inferred_abi(ps@, k as int) is None,
        decreases ps@.len() - k,
    {
        if matches!(ps[k].abi, Some(Ty::Infer)) {
            proof {
                lemma_first_inferred_stays(ps@, k as int + 1, ps@.len() as int);
            }
            return Some(k);
        }
        k = k + 1;
    }
    None
}

/// Once a part with an inferred ABI type is found, it stays the first.
proof fn lemma_first_inferred_stays(ps: Seq<UnpackPart>, k: int, n: int)
    requires
        k <= n,
        spec_first_inferred_abi(ps, k) is Some,
    ensures
        spec_first_inferred_abi(ps, n) == spec_first_inferred_abi(ps, k),
    decreases n - k,
{
    if k < n {
        lemma_first_inferred_stays(ps, k, n - 1);
    }
}

/// Reads the list of one attribute: `None` where it is not a list, else the
/// parts or the first error.
fn list_parse(l: &UnpackList) -> (r: Option<Result<&Vec<UnpackPart>, UnpackError>>)
    ensures
        match r {
            None => spec_list_parse(*l) is None,
            Some(Ok(ps)) => spec_list_parse(*l) == Some(Ok::<Seq<UnpackPart>, SpecUnpackError>(ps@)),
            Some(Err(e)) => spec_list_parse(*l) == Some(Err::<Seq<UnpackPart>, SpecUnpackError>(e@)),
        },
{
    match l {
        UnpackList::NotList => None,
        UnpackList::Parts(ps) => Some(
            match first_inferred_abi(ps) {
                Some(j) => Err(UnpackError::InferredAbi { part: j }),
                None => Ok(ps),
            },
        ),
        UnpackList::Invalid { parsed, message } => Some(
            match first_inferred_abi(parsed) {
                Some(j) => Err(UnpackError::InferredAbi { part: j }),
                None => Err(UnpackError::Syntax { message: message.clone() }),
            },
        ),
    }
}

// ---------------------------------------------------------------------------
// Which form the attributes take.

/// Whether the parameter is unpacked into two parts: one of its `#[unpack]`
/// attributes is bare, or a list that reads as other than one part.
pub open spec fn spec_is_unpack_arg(forms: Seq<UnpackList>) -> bool {
    exists|i: int|
        0 <= i < forms.len() && (forms[i] is NotList || (spec_list_parse(forms[i]) matches Some(Ok(ps))
            && ps.len() != 1))
}

/// Whether the parameter with these `#[unpack]` attributes, in order, is
/// unpacked into two parts: one of them is bare, or a list that reads as
/// other than one part.
pub fn is_unpack_arg(forms: &Vec<UnpackList>) -> (r: bool)
    ensures
        r == spec_is_unpack_arg(forms@),
{
    let mut i: usize = 0;
    while i < forms.len()
        invariant
            i <= forms@.len(),
            forall|j: int|
                0 <= j < i ==> !(forms@[j] is NotList || (spec_list_parse(forms@[j]) matches Some(Ok(ps))
                    && ps.len() != 1)),
        decreases forms@.len() - i,
    {
        let two = match list_parse(&forms[i]) {
            None => true,
            Some(Ok(ps)) => ps.len() != 1,
            Some(Err(_)) => false,
        };
        if two {
            return true;
        }
        i = i + 1;
    }
    false
}

/// The two parts of the first `#[unpack]` attribute, or why it has not two.
pub open spec fn spec_unpack_parts(forms: Seq<UnpackList>) -> Result<Option<(UnpackPart, UnpackPart)>, SpecUnpackError> {
    if forms.len() == 0 {
        Ok(None)
    } else {
        match spec_list_parse(forms[0]) {
            None => Err(SpecUnpackError::TwoParts),
            Some(Err(e)) => Err(e),
            Some(Ok(ps)) => if ps.len() != 2 {
                Err(SpecUnpackError::TwoParts)
            } else {
                Ok(Some((ps[0], ps[1])))
            },
        }
    }
}

/// Whether the first `#[unpack]` attribute is the one-part form, which
/// gives no ABI type; an error where its list does not read or gives one.
pub open spec fn spec_validate_single(forms: Seq<UnpackList>) -> Result<bool, SpecUnpackError> {
    if forms.len() == 0 {
        Ok(false)
    } else {
        match spec_list_parse(forms[0]) {
            None => Ok(false),
            Some(Err(e)) => Err(e),
            Some(Ok(ps)) => if ps.len() != 1 {
                Ok(false)
            } else if ps[0].abi is Some {
                Err(SpecUnpackError::OnePartAbi)
            } else {
                Ok(true)
            },
        }
    }
}

/// The two parts of the first `#[unpack]` attribute, where there is one:
/// it must be a list of exactly two parts.
pub fn unpack_parts(forms: &Vec<UnpackList>) -> (r: Result<Option<(&UnpackPart, &UnpackPart)>, UnpackError>)
    ensures
        match r {
            Ok(None) => spec_unpack_parts(forms@) == Ok::<
                Option<(UnpackPart, UnpackPart)>,
                SpecUnpackError,
            >(None),
            Ok(Some((a, b))) => spec_unpack_parts(forms@) == Ok::<
                Option<(UnpackPart, UnpackPart)>,
                SpecUnpackError,
            >(Some((*a, *b))),
            Err(e) => spec_unpack_parts(forms@) == Err::<Option<(UnpackPart, UnpackPart)>, SpecUnpackError>(
                e@,
            ),
        },
{
    if forms.len() == 0 {
        return Ok(None);
    }
    match list_parse(&forms[0]) {
        None => Err(UnpackError::TwoParts),
        Some(Err(e)) => Err(e),
        Some(Ok(ps)) => if ps.len() != 2 {
            Err(UnpackError::TwoParts)
        } else {
            Ok(Some((&ps[0], &ps[1])))
        },
    }
}

/// Whether the first `#[unpack]` attribute is the one-part form
/// `#[unpack(Type)]`; that form may not give an ABI type.
pub fn validate_single_unpack(forms: &Vec<UnpackList>) -> (r: Result<bool, UnpackError>)
    ensures
        match r {
            Ok(b) => spec_validate_single(forms@) == Ok::<bool, SpecUnpackError>(b),
            Err(e) => spec_validate_single(forms@) == Err::<bool, SpecUnpackError>(e@),
        },
{
    if forms.len() == 0 {
        return Ok(false);
    }
    match list_parse(&forms[0]) {
        None => Ok(false),
        Some(Err(e)) => Err(e),
        Some(Ok(ps)) => if ps.len() != 1 {
            Ok(false)
        } else if ps[0].abi.is_some() {
            Err(UnpackError::OnePartAbi)
        } else {
            Ok(true)
        },
    }
}

/// The type that the one-part form passes: the part's type, or the
/// parameter's own type where the part is `_`.
pub open spec fn spec_single_unpack_part(forms: Seq<UnpackList>, arg_ty: Ty) -> Result<Option<SpecTy>, SpecUnpackError> {
    match spec_validate_single(forms) {
        Err(e) => Err(e),
        Ok(false) => Ok(None),
        Ok(true) => match spec_list_parse(forms[0]) {
            Some(Ok(ps)) => Ok(
                Some(
                    if ps[0].logical is Infer {
                        arg_ty@
                    } else {
                        ps[0].logical@
                    },
                ),
            ),
            _ => Ok(None),
        },
    }
}

/// The type that the one-part form `#[unpack(Type)]` passes: `Type`, or
/// the parameter's own type where it is `_`; `None` for other forms.
pub fn single_unpack_part(forms: &Vec<UnpackList>, arg_ty: &Ty) -> (r: Result<Option<Ty>, UnpackError>)
    ensures
        match r {
            Ok(Some(t)) => spec_single_unpack_part(forms@, *arg_ty) == Ok::<Option<SpecTy>, SpecUnpackError>(
                Some(t@),
            ),
            Ok(None) => spec_single_unpack_part(forms@, *arg_ty) == Ok::<Option<SpecTy>, SpecUnpackError>(
                None,
            ),
            Err(e) => spec_single_unpack_part(forms@, *arg_ty) == Err::<Option<SpecTy>, SpecUnpackError>(
                e@,
            ),
        },
{
    match validate_single_unpack(forms) {
        Err(e) => Err(e),
        Ok(false) => Ok(None),
        Ok(true) => match list_parse(&forms[0]) {
            Some(Ok(ps)) => {
                if matches!(ps[0].logical, Ty::Infer) {
                    Ok(Some(clone_ty(arg_ty)))
                } else {
                    Ok(Some(clone_ty(&ps[0].logical)))
                }
            },
            _ => Ok(None),
        },
    }
}

// ---------------------------------------------------------------------------
// The C types of the parts.

/// A path segment without arguments.
pub open spec fn spec_bare_segment(name: Seq<char>) -> SpecSegment {
    SpecSegment { ident: name, args: SpecArgs::Bare }
}

/// `<t as co3::ExternC>::CType`, the C type of `t`.
pub open spec fn spec_ctype(t: SpecTy) -> SpecTy {
    SpecTy::Path(
        SpecPath {
            qself: Some((Box::new(t), 2usize, true)),
            leading_colon: false,
            segments: seq![
                spec_bare_segment("co3"@),
                spec_bare_segment("ExternC"@),
                spec_bare_segment("CType"@),
            ],
        },
    )
}

/// `<t as co3::wide::Wide>::name`, an associated type of the wide type `t`.
pub open spec fn spec_wide_assoc(t: SpecTy, name: Seq<char>) -> SpecTy {
    SpecTy::Path(
        SpecPath {
            qself: Some((Box::new(t), 3usize, true)),
            leading_colon: false,
            segments: seq![
                spec_bare_segment("co3"@),
                spec_bare_segment("wide"@),
                spec_bare_segment("Wide"@),
                spec_bare_segment(name),
            ],
        },
    )
}

/// `co3::boxed::CBox<t>`.
pub open spec fn spec_cbox(t: SpecTy) -> SpecTy {
    SpecTy::Path(
        SpecPath {
            qself: None,
            leading_colon: false,
            segments: seq![
                spec_bare_segment("co3"@),
                spec_bare_segment("boxed"@),
                SpecSegment { ident: "CBox"@, args: SpecArgs::Angle(seq![SpecArg::Type(t)]) },
            ],
        },
    )
}

/// The C type of the data of the wide type `w`.
pub open spec fn spec_wide_data(w: SpecTy) -> SpecTy {
    spec_ctype(spec_wide_assoc(w, "Data"@))
}

/// The C type of the first or the second part inferred from a type that is
/// not an `Option`: the element of a two-element tuple; for a `Box` of a
/// wide type, the boxed data or the metadata; for a reference to a wide
/// type, a pointer to the data or the metadata.
pub open spec fn spec_inferred_non_option(t: Ty, second: bool) -> Result<SpecTy, SpecUnpackError>
    decreases t,
{
    match t {
        Ty::Paren { elem, .. } => spec_inferred_non_option(*elem, second),
        Ty::Group { elem, .. } => spec_inferred_non_option(*elem, second),
        Ty::Tuple(elems) if elems@.len() == 2 => Ok(
            spec_ctype(
                if second {
                    elems@[1]@
                } else {
                    elems@[0]@
                },
            ),
        ),
        _ => match spec_boxed_wide(t) {
            Some(w) => Ok(
                if second {
                    spec_wide_assoc(w@, "Metadata"@)
                } else {
                    spec_cbox(spec_wide_data(w@))
                },
            ),
            None => match t {
                Ty::Reference { mutable, elem, .. } => Ok(
                    if second {
                        spec_wide_assoc((*elem)@, "Metadata"@)
                    } else {
                        SpecTy::Ptr { mutable, elem: Box::new(spec_wide_data((*elem)@)) }
                    },
                ),
                _ => Err(SpecUnpackError::Inferred { second }),
            },
        },
    }
}

/// The C type of a part inferred from the parameter's type, looking
/// through parentheses, groups and an `Option`.
pub open spec fn spec_inferred_part(arg_ty: Ty, second: bool) -> Result<SpecTy, SpecUnpackError> {
    let t = spec_peel(arg_ty);
    match spec_option_inner(t) {
        Some(inner) => spec_inferred_non_option(inner, second),
        None => spec_inferred_non_option(t, second),
    }
}

/// The logical C type of a part: its type's C type, or the inferred one
/// where it is `_`.
pub open spec fn spec_logical_part(arg_ty: Ty, logical: Ty, second: bool) -> Result<SpecTy, SpecUnpackError> {
    if logical is Infer {
        spec_inferred_part(arg_ty, second)
    } else {
        Ok(spec_ctype(logical@))
    }
}

/// The C type that crosses the boundary for a part: its ABI type's C type,
/// else its logical C type.
pub open spec fn spec_abi_part(arg_ty: Ty, part: UnpackPart, second: bool) -> Result<SpecTy, SpecUnpackError> {
    match part.abi {
        Some(abi) => Ok(spec_ctype(abi@)),
        None => spec_logical_part(arg_ty, part.logical, second),
    }
}

/// The pair of results for the two parts, the first error first.
pub open spec fn spec_pair(a: Result<SpecTy, SpecUnpackError>, b: Result<SpecTy, SpecUnpackError>) -> Result<
    (SpecTy, SpecTy),
    SpecUnpackError,
> {
    match a {
        Err(e) => Err(e),
        Ok(x) => match b {
            Err(e) => Err(e),
            Ok(y) => Ok((x, y)),
        },
    }
}

/// The value of a result for two parts.
pub open spec fn pair_view(r: Result<(Ty, Ty), UnpackError>) -> Result<(SpecTy, SpecTy), SpecUnpackError> {
    match r {
        Ok((a, b)) => Ok((a@, b@)),
        Err(e) => Err(e@),
    }
}

/// The value of a result for one part.
pub open spec fn part_view(r: Result<Ty, UnpackError>) -> Result<SpecTy, SpecUnpackError> {
    match r {
        Ok(a) => Ok(a@),
        Err(e) => Err(e@),
    }
}

/// A path segment without arguments.
pub(crate) fn bare_segment(name: &str) -> (r: PathSegment)
    ensures
        r.ident@ == name@,
        r.args == PathArgs::Bare,
{
    PathSegment { ident: name.to_owned(), args: PathArgs::Bare }
}

/// `<t as co3::ExternC>::CType`.
pub(crate) fn ctype(t: Ty) -> (r: Ty)
    ensures
        r@ == spec_ctype(t@),
{
    let ghost tv = t@;
    let segments = vec![bare_segment("co3"), bare_segment("ExternC"), bare_segment("CType")];
    proof {
        reveal_strlit("co3");
        reveal_strlit("ExternC");
        reveal_strlit("CType");
        assert(segments_view(segments@) =~= seq![
            spec_bare_segment("co3"@),
            spec_bare_segment("ExternC"@),
            spec_bare_segment("CType"@),
        ]);
    }
    let p = TyPath { qself: Some(QSelf { ty: Box::new(t), position: 2, has_as: true }), leading_colon: false, segments };
    assert(crate::types::path_view(p) == SpecPath {
        qself: Some((Box::new(tv), 2usize, true)),
        leading_colon: false,
        segments: seq![spec_bare_segment("co3"@), spec_bare_segment("ExternC"@), spec_bare_segment("CType"@)],
    });
    let r = Ty::Path(p);
    assert(r@ == SpecTy::Path(crate::types::path_view(p)));
    r
}

/// `<t as co3::wide::Wide>::name`.
fn wide_assoc(t: Ty, name: &str) -> (r: Ty)
    ensures
        r@ == spec_wide_assoc(t@, name@),
{
    let ghost tv = t@;
    let segments = vec![bare_segment("co3"), bare_segment("wide"), bare_segment("Wide"), bare_segment(name)];
    proof {
        reveal_strlit("co3");
        reveal_strlit("wide");
        reveal_strlit("Wide");
        assert(segments_view(segments@) =~= seq![
            spec_bare_segment("co3"@),
            spec_bare_segment("wide"@),
            spec_bare_segment("Wide"@),
            spec_bare_segment(name@),
        ]);
    }
    let p = TyPath { qself: Some(QSelf { ty: Box::new(t), position: 3, has_as: true }), leading_colon: false, segments };
    assert(crate::types::path_view(p) == SpecPath {
        qself: Some((Box::new(tv), 3usize, true)),
        leading_colon: false,
        segments: seq![
            spec_bare_segment("co3"@),
            spec_bare_segment("wide"@),
            spec_bare_segment("Wide"@),
            spec_bare_segment(name@),
        ],
    });
    let r = Ty::Path(p);
    assert(r@ == SpecTy::Path(crate::types::path_view(p)));
    r
}

/// `co3::boxed::CBox<t>`.
fn cbox(t: Ty) -> (r: Ty)
    ensures
        r@ == spec_cbox(t@),
{
    let ghost tv = t@;
    let args = vec![crate::types::GenericArg::Type(t)];
    proof {
        assert(crate::types::generic_arg_view(args@[0]) == SpecArg::Type(tv));
        assert(generic_args_view(args@) =~= seq![SpecArg::Type(tv)]);
    }
    let ghost cbox_args = crate::types::path_args_view(PathArgs::Angle(args));
    let last = PathSegment { ident: "CBox".to_owned(), args: PathArgs::Angle(args) };
    assert(cbox_args == SpecArgs::Angle(seq![SpecArg::Type(tv)]));
    let segments = vec![bare_segment("co3"), bare_segment("boxed"), last];
    proof {
        reveal_strlit("co3");
        reveal_strlit("boxed");
        reveal_strlit("CBox");
        assert(segments_view(segments@) =~= seq![
            spec_bare_segment("co3"@),
            spec_bare_segment("boxed"@),
            SpecSegment { ident: "CBox"@, args: SpecArgs::Angle(seq![SpecArg::Type(tv)]) },
        ]);
    }
    let p = TyPath { qself: None, leading_colon: false, segments };
    assert(crate::types::path_view(p).segments == segments_view(p.segments@));
    let r = Ty::Path(p);
    assert(r@ == SpecTy::Path(crate::types::path_view(p)));
    r
}

/// The C type of the first or the second part inferred from a type that is
/// not an `Option`.
fn inferred_non_option_unpack_part(t: &Ty, second: bool) -> (r: Result<Ty, UnpackError>)
    ensures
        part_view(r) == spec_inferred_non_option(*t, second),
    decreases t,
{
    match t {
        Ty::Paren { elem, .. } => {
            return inferred_non_option_unpack_part(elem, second);
        },
        Ty::Group { elem, .. } => {
            return inferred_non_option_unpack_part(elem, second);
        },
        _ => {},
    }
    if let Some((a, b)) = tuple_parts(t) {
        return Ok(ctype(clone_ty(if second { b } else { a })));
    }
    if let Some(w) = boxed_wide_type(t) {
        proof {
            reveal_strlit("Data");
            reveal_strlit("Metadata");
        }
        return Ok(
            if second {
                wide_assoc(clone_ty(w), "Metadata")
            } else {
                cbox(ctype(wide_assoc(clone_ty(w), "Data")))
            },
        );
    }
    match t {
        Ty::Reference { mutable, elem, .. } => {
            proof {
                reveal_strlit("Data");
                reveal_strlit("Metadata");
            }
            Ok(
                if second {
                    wide_assoc(clone_ty(elem), "Metadata")
                } else {
                    Ty::Ptr { mutable: *mutable, elem: Box::new(ctype(wide_assoc(clone_ty(elem), "Data"))) }
                },
            )
        },
        _ => Err(UnpackError::Inferred { second }),
    }
}

/// The C type of a part inferred from the parameter's type.
fn inferred_unpack_part(arg_ty: &Ty, second: bool) -> (r: Result<Ty, UnpackError>)
    ensures
        part_view(r) == spec_inferred_part(*arg_ty, second),
{
    let t = peel_grouped_type(arg_ty);
    match option_inner_type(t) {
        Some(inner) => inferred_non_option_unpack_part(inner, second),
        None => inferred_non_option_unpack_part(t, second),
    }
}

/// The logical C type of a part.
fn logical_unpack_part(arg_ty: &Ty, logical: &Ty, second: bool) -> (r: Result<Ty, UnpackError>)
    ensures
        part_view(r) == spec_logical_part(*arg_ty, *logical, second),
{
    if matches!(logical, Ty::Infer) {
        inferred_unpack_part(arg_ty, second)
    } else {
        Ok(ctype(clone_ty(logical)))
    }
}

/// The C type that crosses the boundary for a part.
fn abi_unpack_part(arg_ty: &Ty, part: &UnpackPart, second: bool) -> (r: Result<Ty, UnpackError>)
    ensures
        part_view(r) == spec_abi_part(*arg_ty, *part, second),
{
    match &part.abi {
        Some(abi) => Ok(ctype(clone_ty(abi))),
        None => logical_unpack_part(arg_ty, &part.logical, second),
    }
}

/// The C types that cross the boundary for the two parts of an unpacked
/// parameter of type `arg_ty`: each part's ABI type, else its logical type,
/// inferred from the parameter's type where it is `_`.
pub fn unpack_abi_parts(forms: &Vec<UnpackList>, arg_ty: &Ty) -> (r: Result<(Ty, Ty), UnpackError>)
    requires
        spec_unpack_parts(forms@) matches Ok(Some(_)),
    ensures
        spec_unpack_parts(forms@) matches Ok(Some((a, b))) && pair_view(r) == spec_pair(
            spec_abi_part(*arg_ty, a, false),
            spec_abi_part(*arg_ty, b, true),
        ),
{
    let (a, b) = match unpack_parts(forms) {
        Ok(Some(parts)) => parts,
        _ => {
            proof {
                assert(false);
            }
            return Err(UnpackError::TwoParts);
        },
    };
    let x = match abi_unpack_part(arg_ty, a, false) {
        Ok(x) => x,
        Err(e) => {
            return Err(e);
        },
    };
    let y = match abi_unpack_part(arg_ty, b, true) {
        Ok(y) => y,
        Err(e) => {
            return Err(e);
        },
    };
    Ok((x, y))
}

/// The logical C types of the two parts of an unpacked parameter of type
/// `arg_ty`: each part's type, inferred from the parameter's type where it
/// is `_`.
pub fn unpack_logical_parts(forms: &Vec<UnpackList>, arg_ty: &Ty) -> (r: Result<(Ty, Ty), UnpackError>)
    requires
        spec_unpack_parts(forms@) matches Ok(Some(_)),
    ensures
        spec_unpack_parts(forms@) matches Ok(Some((a, b))) && pair_view(r) == spec_pair(
            spec_logical_part(*arg_ty, a.logical, false),
            spec_logical_part(*arg_ty, b.logical, true),
        ),
{
    let (a, b) = match unpack_parts(forms) {
        Ok(Some(parts)) => parts,
        _ => {
            proof {
                assert(false);
            }
            return Err(UnpackError::TwoParts);
        },
    };
    let x = match logical_unpack_part(arg_ty, &a.logical, false) {
        Ok(x) => x,
        Err(e) => {
            return Err(e);
        },
    };
    let y = match logical_unpack_part(arg_ty, &b.logical, true) {
        Ok(y) => y,
        Err(e) => {
            return Err(e);
        },
    };
    Ok((x, y))
}

/// The `Option`'s payload type where a two-part `#[unpack]` with a part to
/// infer applies to an `Option` parameter.
pub open spec fn spec_option_inner_of(forms: Seq<UnpackList>, arg_ty: Ty) -> Result<Option<Ty>, SpecUnpackError> {
    match spec_validate_single(forms) {
        Err(e) => Err(e),
        Ok(true) => Ok(None),
        Ok(false) => match spec_unpack_parts(forms) {
            Err(e) => Err(e),
            Ok(None) => Ok(None),
            Ok(Some((a, b))) => if !(a.logical is Infer) && !(b.logical is Infer) {
                Ok(None)
            } else {
                Ok(spec_option_inner(spec_peel(arg_ty)))
            },
        },
    }
}

/// The payload type of an `Option` parameter whose two-part `#[unpack]`
/// infers a part, which is unpacked inside the `Option`; `None` otherwise.
pub fn inferred_unpack_option_inner<'a>(forms: &Vec<UnpackList>, arg_ty: &'a Ty) -> (r: Result<Option<&'a Ty>, UnpackError>)
    ensures
        match r {
            Ok(Some(t)) => spec_option_inner_of(forms@, *arg_ty) == Ok::<Option<Ty>, SpecUnpackError>(Some(*t)),
            Ok(None) => spec_option_inner_of(forms@, *arg_ty) == Ok::<Option<Ty>, SpecUnpackError>(None),
            Err(e) => spec_option_inner_of(forms@, *arg_ty) == Err::<Option<Ty>, SpecUnpackError>(e@),
        },
{
    match validate_single_unpack(forms) {
        Err(e) => {
            return Err(e);
        },
        Ok(true) => {
            return Ok(None);
        },
        Ok(false) => {},
    }
    let (a, b) = match unpack_parts(forms) {
        Err(e) => {
            return Err(e);
        },
        Ok(None) => {
            return Ok(None);
        },
        Ok(Some(parts)) => parts,
    };
    if !matches!(a.logical, Ty::Infer) && !matches!(b.logical, Ty::Infer) {
        return Ok(None);
    }
    Ok(option_inner_type(peel_grouped_type(arg_ty)))
}

// ---------------------------------------------------------------------------
// Laws.

/// The one-part and the two-part forms exclude each other: where the first
/// `#[unpack]` is the one-part form, it has not two parts, and where it has
/// two parts, it is not the one-part form; both read the same list, so both
/// fail alike on a list that does not read.
pub proof fn lemma_unpack_forms_exclusive(forms: Seq<UnpackList>)
    ensures
        spec_validate_single(forms) == Ok::<bool, SpecUnpackError>(true) ==> spec_unpack_parts(forms) == Err::<
            Option<(UnpackPart, UnpackPart)>,
            SpecUnpackError,
        >(SpecUnpackError::TwoParts),
        spec_unpack_parts(forms) matches Ok(Some(_)) ==> spec_validate_single(forms) == Ok::<bool, SpecUnpackError>(false),
        forms.len() > 0 ==> (spec_list_parse(forms[0]) matches Some(Err(e)) ==> (spec_validate_single(forms)
            == Err::<bool, SpecUnpackError>(e) && spec_unpack_parts(forms) == Err::<
            Option<(UnpackPart, UnpackPart)>,
            SpecUnpackError,
        >(e))),
{
}

/// An `Option` parameter is unpacked as its payload: the parts inferred
/// from `Option<T>` are those inferred from `T`.
pub proof fn lemma_option_unpacks_its_payload(arg_ty: Ty, second: bool)
    requires
        spec_option_inner(spec_peel(arg_ty)) is Some,
    ensures
        spec_inferred_part(arg_ty, second) == spec_inferred_non_option(
            spec_option_inner(spec_peel(arg_ty))->Some_0,
            second,
        ),
{
}

} // verus!
