//! Which code a type deriving `FfiType` gets: opaque where `#[mineral]`
//! says so; a refusal for a unit struct; by its `#[repr]` where it has one
//! (transparent, `C`, or a primitive on an enum); otherwise a refusal for an
//! enum without variants, and else the code of an enum with data or of a
//! struct, local where `#[mineral(local)]` says so.
use vstd::prelude::*;
use crate::mineral::FfiTypeKindAttribute;
use crate::repr::{ReprKind, ReprPrimitive};

verus! {

/// The shape of the type's data.
#[derive(Debug, Clone, Copy, PartialEq, Eq, Structural)]
pub enum DataShape {
    UnitStruct,
    Struct,
    Enum { variants: usize },
}

/// The code that a type deriving `FfiType` gets.
#[derive(Debug, Clone, Copy, PartialEq, Eq, Structural)]
pub enum DeriveRoute {
    Opaque,
    UnitStructRefused,
    Transparent,
    ReprC,
    FieldlessEnum(ReprPrimitive),
    UninhabitedRefused,
    DataEnum { local: bool },
    NoReprStruct { local: bool },
}

/// The code that a type gets, from what its `#[mineral]` asks for, the
/// kind of its `#[repr]`, and the shape of its data.
pub open spec fn spec_derive_route(kind: Option<FfiTypeKindAttribute>, repr: Option<ReprKind>, shape: DataShape) -> DeriveRoute {
    if kind matches Some(FfiTypeKindAttribute::Opaque) {
        DeriveRoute::Opaque
    } else if shape is UnitStruct {
        DeriveRoute::UnitStructRefused
    } else {
        let local = kind matches Some(FfiTypeKindAttribute::Local);
        match (repr, shape) {
            (Some(ReprKind::Transparent), _) => DeriveRoute::Transparent,
            (Some(ReprKind::C(_)), _) => DeriveRoute::ReprC,
            (Some(ReprKind::Primitive(p)), DataShape::Enum { .. }) => DeriveRoute::FieldlessEnum(p),
            (_, DataShape::Enum { variants }) => if variants == 0 {
                DeriveRoute::UninhabitedRefused
            } else {
                DeriveRoute::DataEnum { local }
            },
            _ => DeriveRoute::NoReprStruct { local },
        }
    }
}

/// The code that a type gets (see `spec_derive_route`).
pub fn derive_ffi_type_route(kind: Option<FfiTypeKindAttribute>, repr: Option<ReprKind>, shape: DataShape) -> (r: DeriveRoute)
    ensures
        r == spec_derive_route(kind, repr, shape),
{
    let opaque = match kind {
        Some(FfiTypeKindAttribute::Opaque) => true,
        _ => false,
    };
    if opaque {
        return DeriveRoute::Opaque;
    }
    if let DataShape::UnitStruct = shape {
        return DeriveRoute::UnitStructRefused;
    }
    let local = match kind {
        Some(FfiTypeKindAttribute::Local) => true,
        _ => false,
    };
    match repr {
        Some(ReprKind::Transparent) => DeriveRoute::Transparent,
        Some(ReprKind::C(_)) => DeriveRoute::ReprC,
        Some(ReprKind::Primitive(p)) => match shape {
            DataShape::Enum { .. } => DeriveRoute::FieldlessEnum(p),
            _ => DeriveRoute::NoReprStruct { local },
        },
        None => match shape {
            DataShape::Enum { variants } => if variants == 0 {
                DeriveRoute::UninhabitedRefused
            } else {
                DeriveRoute::DataEnum { local }
            },
            _ => DeriveRoute::NoReprStruct { local },
        },
    }
}

impl DeriveRoute {
    /// The error that a refused type is reported with, where it is refused.
    pub fn refusal(&self) -> (r: Option<&'static str>)
        ensures
            self is UnitStructRefused ==> (r matches Some(m) && m@
                == "Unit structs are not allowed in FFI. Annotate with #[co3::mineral(opaque)]?"@),
            self is UninhabitedRefused ==> (r matches Some(m) && m@
                == "Uninhabited enums are not allowed in FFI. Annotate with #[co3::mineral(opaque)]?"@),
            !(self is UnitStructRefused || self is UninhabitedRefused) ==> r is None,
    {
        match self {
            DeriveRoute::UnitStructRefused => Some("Unit structs are not allowed in FFI. Annotate with #[co3::mineral(opaque)]?"),
            DeriveRoute::UninhabitedRefused => Some("Uninhabited enums are not allowed in FFI. Annotate with #[co3::mineral(opaque)]?"),
            _ => None,
        }
    }
}


/// How the route of a type deriving `FfiType` follows from its attributes
/// and data: `#[mineral(opaque)]` always gives the opaque code; otherwise a
/// unit struct is refused; otherwise `#[repr(transparent)]` and
/// `#[repr(C)]` give their code whatever the data (struct or enum); a
/// primitive `#[repr]` on an enum gives the fieldless-enum code; and
/// without a `#[repr]`, an enum without variants is refused, another enum
/// gets the data-enum code and a struct the no-repr struct code, local
/// exactly where `#[mineral(local)]` says so.
pub proof fn lemma_derive_route(kind: Option<FfiTypeKindAttribute>, repr: Option<ReprKind>, shape: DataShape)
    ensures
        ({
            let r = spec_derive_route(kind, repr, shape);
            let opaque = kind matches Some(FfiTypeKindAttribute::Opaque);
            let local = kind matches Some(FfiTypeKindAttribute::Local);
            let unit = shape matches DataShape::UnitStruct;
            &&& opaque ==> r == DeriveRoute::Opaque
            &&& !opaque && unit ==> r == DeriveRoute::UnitStructRefused
            &&& !opaque && !unit && repr == Some(ReprKind::Transparent) ==> r == DeriveRoute::Transparent
            &&& !opaque && !unit && (repr matches Some(ReprKind::C(_))) ==> r == DeriveRoute::ReprC
            &&& !opaque && (repr matches Some(ReprKind::Primitive(p))) && (shape matches DataShape::Enum { .. })
                ==> r == DeriveRoute::FieldlessEnum(repr->0->Primitive_0)
            &&& !opaque && repr is None && shape == (DataShape::Enum { variants: 0 }) ==> r == DeriveRoute::UninhabitedRefused
            &&& !opaque && repr is None && (shape matches DataShape::Enum { variants }) && shape->variants > 0
                ==> r == (DeriveRoute::DataEnum { local })
            &&& !opaque && (repr is None || (repr matches Some(ReprKind::Primitive(_)))) && shape == DataShape::Struct
                ==> r == (DeriveRoute::NoReprStruct { local })
            &&& (r matches DeriveRoute::DataEnum { local: l } ==> l == local)
            &&& (r matches DeriveRoute::NoReprStruct { local: l } ==> l == local)
        }),
{
}

} // verus!
