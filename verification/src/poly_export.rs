//! The symbol name under which a polymorphic export is made.
use vstd::prelude::*;
use crate::symbol::{path_symbol_name, spec_path_sym};
use crate::types::{Ty, TyPath};

verus! {

/// The symbol name of a polymorphic export: a name given as it is, or one
/// scoped by the crate being compiled,
/// `concat!(env!("CARGO_CRATE_NAME"), "_", owner, "_", method)`.
#[derive(Debug, PartialEq, Eq)]
pub enum PolyExportName {
    Given(String),
    CrateScoped { owner: String, method: String },
}

/// The value of a polymorphic export's symbol name.
pub enum SpecPolyExportName {
    Given(Seq<char>),
    CrateScoped { owner: Seq<char>, method: Seq<char> },
}

impl View for PolyExportName {
    type V = SpecPolyExportName;

    open spec fn view(&self) -> SpecPolyExportName {
        match self {
            PolyExportName::Given(s) => SpecPolyExportName::Given(s@),
            PolyExportName::CrateScoped { owner, method } => SpecPolyExportName::CrateScoped {
                owner: owner@,
                method: method@,
            },
        }
    }
}

/// The owner named in a crate-scoped export name: the trait's path where the
/// method belongs to a trait, else the first type bound to `Self` where it is
/// a path without a qualified self, else `Self`.
pub open spec fn spec_poly_owner(trait_path: Option<TyPath>, self_key: Option<Ty>) -> Seq<char> {
    match trait_path {
        Some(p) => spec_path_sym(p),
        None => match self_key {
            Some(Ty::Path(p)) => if p.qself is None {
                spec_path_sym(p)
            } else {
                "Self"@
            },
            _ => "Self"@,
        },
    }
}

/// A polymorphic export's symbol name, from its `unsafe_name` (taken as it
/// is), whether it asks for no mangling (the method's own name), the method,
/// the trait it belongs to, if any, and the first type bound to `Self`.
pub open spec fn spec_poly_export_name(
    unsafe_name: Option<Seq<char>>,
    no_mangle: bool,
    method: Seq<char>,
    trait_path: Option<TyPath>,
    self_key: Option<Ty>,
) -> SpecPolyExportName {
    match unsafe_name {
        Some(n) => SpecPolyExportName::Given(n),
        None => if no_mangle {
            SpecPolyExportName::Given(method)
        } else {
            SpecPolyExportName::CrateScoped { owner: spec_poly_owner(trait_path, self_key), method }
        },
    }
}

/// A polymorphic export's symbol name (see `spec_poly_export_name`).
pub fn gen_poly_export_name(
    unsafe_name: Option<&str>,
    no_mangle: bool,
    method: &str,
    trait_path: Option<&TyPath>,
    self_key: Option<&Ty>,
) -> (r: PolyExportName)
    ensures
        r@ == spec_poly_export_name(
            match unsafe_name {
                Some(n) => Some(n@),
                None => None,
            },
            no_mangle,
            method@,
            match trait_path {
                Some(p) => Some(*p),
                None => None,
            },
            match self_key {
                Some(t) => Some(*t),
                None => None,
            },
        ),
{
    match unsafe_name {
        Some(n) => PolyExportName::Given(String::from_str(n)),
        None => {
            if no_mangle {
                PolyExportName::Given(String::from_str(method))
            } else {
                let owner = match trait_path {
                    Some(p) => path_symbol_name(p),
                    None => match self_key {
                        Some(Ty::Path(p)) => {
                            if p.qself.is_none() {
                                path_symbol_name(p)
                            } else {
                                String::from_str("Self")
                            }
                        },
                        _ => String::from_str("Self"),
                    },
                };
                PolyExportName::CrateScoped { owner, method: String::from_str(method) }
            }
        },
    }
}

} // verus!
