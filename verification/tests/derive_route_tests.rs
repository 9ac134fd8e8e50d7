use co3_derive::derive_route::{derive_ffi_type_route, DataShape, DeriveRoute};
use co3_derive::mineral::FfiTypeKindAttribute;
use co3_derive::repr::{ReprKind, ReprPrimitive};

#[test]
fn opaque_wins_over_everything() {
    let r = derive_ffi_type_route(Some(FfiTypeKindAttribute::Opaque), Some(ReprKind::C(None)), DataShape::UnitStruct);
    assert_eq!(r, DeriveRoute::Opaque);
    assert_eq!(r.refusal(), None);
}

#[test]
fn unit_structs_and_uninhabited_enums_are_refused() {
    let r = derive_ffi_type_route(None, Some(ReprKind::C(None)), DataShape::UnitStruct);
    assert_eq!(r, DeriveRoute::UnitStructRefused);
    assert_eq!(r.refusal(), Some("Unit structs are not allowed in FFI. Annotate with #[co3::mineral(opaque)]?"));
    let r = derive_ffi_type_route(None, None, DataShape::Enum { variants: 0 });
    assert_eq!(r, DeriveRoute::UninhabitedRefused);
    assert_eq!(r.refusal(), Some("Uninhabited enums are not allowed in FFI. Annotate with #[co3::mineral(opaque)]?"));
}

#[test]
fn a_repr_selects_its_code() {
    assert_eq!(derive_ffi_type_route(None, Some(ReprKind::Transparent), DataShape::Struct), DeriveRoute::Transparent);
    assert_eq!(derive_ffi_type_route(None, Some(ReprKind::C(Some(ReprPrimitive::U8))), DataShape::Enum { variants: 2 }), DeriveRoute::ReprC);
    assert_eq!(
        derive_ffi_type_route(None, Some(ReprKind::Primitive(ReprPrimitive::U16)), DataShape::Enum { variants: 2 }),
        DeriveRoute::FieldlessEnum(ReprPrimitive::U16)
    );
    assert_eq!(
        derive_ffi_type_route(Some(FfiTypeKindAttribute::Local), Some(ReprKind::Primitive(ReprPrimitive::U16)), DataShape::Struct),
        DeriveRoute::NoReprStruct { local: true }
    );
}

#[test]
fn without_a_repr_data_decides() {
    assert_eq!(derive_ffi_type_route(None, None, DataShape::Enum { variants: 3 }), DeriveRoute::DataEnum { local: false });
    assert_eq!(derive_ffi_type_route(Some(FfiTypeKindAttribute::Local), None, DataShape::Enum { variants: 1 }), DeriveRoute::DataEnum { local: true });
    assert_eq!(derive_ffi_type_route(None, None, DataShape::Struct), DeriveRoute::NoReprStruct { local: false });
}
