//! A plain model of a function signature: its generics, where clause,
//! parameters and return type.
use vstd::prelude::*;
use crate::tokens::Attr;
use crate::types::{Bound, SpecBound, SpecTy, Ty, bounds_view, strings_view};

verus! {

/// A method receiver: `self`, `&self` / `&'a mut self`, or `self: Type`.
#[derive(Debug, PartialEq, Eq)]
pub enum Receiver {
    Value,
    Reference { lifetime: Option<String>, mutable: bool },
    Typed(Ty),
}

/// A parameter: the receiver, or a pattern (kept as its text) with its
/// attributes and its type.
#[derive(Debug, PartialEq, Eq)]
pub enum FnInput {
    Receiver(Receiver),
    Typed { attrs: Vec<Attr>, pat: String, ty: Ty },
}

/// A generic parameter with its bounds.
#[derive(Debug, PartialEq, Eq)]
pub enum GenericParam {
    Lifetime { name: String, outlives: Vec<String> },
    Type { name: String, bounds: Vec<Bound> },
    Const { name: String, ty: Ty },
}

/// A predicate of a where clause: `Type: bounds` or `'a: 'b + 'c`.
#[derive(Debug, PartialEq, Eq)]
pub enum WherePredicate {
    Type { ty: Ty, bounds: Vec<Bound> },
    Lifetime { lifetime: String, outlives: Vec<String> },
}

/// A function signature.
#[derive(Debug, PartialEq, Eq)]
pub struct FnSig {
    pub generics: Vec<GenericParam>,
    pub where_clause: Option<Vec<WherePredicate>>,
    pub inputs: Vec<FnInput>,
    pub output: Option<Ty>,
}

/// The value of a receiver.
pub enum SpecReceiver {
    Value,
    Reference { lifetime: Option<Seq<char>>, mutable: bool },
    Typed(SpecTy),
}

/// The value of a parameter.
pub enum SpecFnInput {
    Receiver(SpecReceiver),
    Typed { attrs: Seq<Attr>, pat: Seq<char>, ty: SpecTy },
}

/// The value of a generic parameter.
pub enum SpecGenericParam {
    Lifetime { name: Seq<char>, outlives: Seq<Seq<char>> },
    Type { name: Seq<char>, bounds: Seq<SpecBound> },
    Const { name: Seq<char>, ty: SpecTy },
}

/// The value of a where predicate.
pub enum SpecWherePredicate {
    Type { ty: SpecTy, bounds: Seq<SpecBound> },
    Lifetime { lifetime: Seq<char>, outlives: Seq<Seq<char>> },
}

/// The value of a signature.
pub struct SpecSig {
    pub generics: Seq<SpecGenericParam>,
    pub where_clause: Option<Seq<SpecWherePredicate>>,
    pub inputs: Seq<SpecFnInput>,
    pub output: Option<SpecTy>,
}

/// The value of an optional string.
pub open spec fn opt_str_view(o: Option<String>) -> Option<Seq<char>> {
    match o {
        Some(s) => Some(s@),
        None => None,
    }
}

/// The value of an optional type.
pub open spec fn opt_ty_view(o: Option<Ty>) -> Option<SpecTy> {
    match o {
        Some(t) => Some(t@),
        None => None,
    }
}

impl View for Receiver {
    type V = SpecReceiver;

    open spec fn view(&self) -> SpecReceiver {
        match *self {
            Receiver::Value => SpecReceiver::Value,
            Receiver::Reference { lifetime, mutable } => SpecReceiver::Reference {
                lifetime: opt_str_view(lifetime),
                mutable,
            },
            Receiver::Typed(t) => SpecReceiver::Typed(t@),
        }
    }
}

impl View for FnInput {
    type V = SpecFnInput;

    open spec fn view(&self) -> SpecFnInput {
        match *self {
            FnInput::Receiver(r) => SpecFnInput::Receiver(r@),
            FnInput::Typed { attrs, pat, ty } => SpecFnInput::Typed { attrs: attrs@, pat: pat@, ty: ty@ },
        }
    }
}

impl View for GenericParam {
    type V = SpecGenericParam;

    open spec fn view(&self) -> SpecGenericParam {
        match *self {
            GenericParam::Lifetime { name, outlives } => SpecGenericParam::Lifetime {
                name: name@,
                outlives: strings_view(outlives@),
            },
            GenericParam::Type { name, bounds } => SpecGenericParam::Type {
                name: name@,
                bounds: bounds_view(bounds@),
            },
            GenericParam::Const { name, ty } => SpecGenericParam::Const { name: name@, ty: ty@ },
        }
    }
}

impl View for WherePredicate {
    type V = SpecWherePredicate;

    open spec fn view(&self) -> SpecWherePredicate {
        match *self {
            WherePredicate::Type { ty, bounds } => SpecWherePredicate::Type {
                ty: ty@,
                bounds: bounds_view(bounds@),
            },
            WherePredicate::Lifetime { lifetime, outlives } => SpecWherePredicate::Lifetime {
                lifetime: lifetime@,
                outlives: strings_view(outlives@),
            },
        }
    }
}

/// The values of a sequence of parameters.
pub open spec fn inputs_view(s: Seq<FnInput>) -> Seq<SpecFnInput> {
    Seq::new(s.len(), |i: int| s[i]@)
}

/// The values of a sequence of generic parameters.
pub open spec fn generics_view(s: Seq<GenericParam>) -> Seq<SpecGenericParam> {
    Seq::new(s.len(), |i: int| s[i]@)
}

/// The values of a sequence of where predicates.
pub open spec fn predicates_view(s: Seq<WherePredicate>) -> Seq<SpecWherePredicate> {
    Seq::new(s.len(), |i: int| s[i]@)
}

impl View for FnSig {
    type V = SpecSig;

    open spec fn view(&self) -> SpecSig {
        SpecSig {
            generics: generics_view(self.generics@),
            where_clause: match self.where_clause {
                Some(w) => Some(predicates_view(w@)),
                None => None,
            },
            inputs: inputs_view(self.inputs@),
            output: opt_ty_view(self.output),
        }
    }
}

} // verus!
