//! Verified core of the `co3` derive and `ffi!` macros: the decisions and
//! computations that the code generator makes, stated over plain models of
//! attributes, tokens, types and signatures.
mod text;
pub mod tokens;
pub mod repr;
pub mod layout;
pub mod symbol;
pub mod types;
pub mod impl_trait;
pub mod signature;
pub mod lifetimes;
pub mod order;
pub mod outlives;
pub mod body;
pub mod mineral;
pub mod dispatch;
pub mod groups;
mod equality;
pub mod cycles;
pub mod dispatch_check;
pub mod preprocess;
pub mod ffi_attrs;
pub mod unpack;
pub mod tag_ids;
pub mod generics;
pub mod self_ty;
pub mod lower;
pub mod symbol_attrs;
pub mod params;
pub mod codegen;
pub mod erased;
pub mod decl;
pub mod enum_codegen;
pub mod repr_c;
pub mod data_enum;
pub mod struct_codegen;
pub mod ffi_enum;
pub mod poly_export;
pub mod wrapper_bounds;
pub mod dispatch_set;
pub mod export_type;
pub mod drop_import;
pub mod poly_body;
pub mod derive_route;
pub mod id_slots;
pub mod derive_items;
