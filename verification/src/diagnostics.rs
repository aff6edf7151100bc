//! Diagnostics reported while lowering written types: plain data
//! carried from the lowering pass to its consumers, with no behaviour
//! of its own.

use vstd::prelude::*;

verus! {

/// The index of the type reference the diagnostic points at, as a plain
/// arena index.
#[derive(Debug, Clone, Copy, PartialEq, Eq)]
pub struct TypeRefId(pub u32);

#[derive(Debug, PartialEq, Eq, Clone)]
pub struct TyLoweringDiagnostic {
    pub source: TypeRefId,
    pub kind: TyLoweringDiagnosticKind,
}

#[derive(Debug, PartialEq, Eq, Clone)]
pub enum TyLoweringDiagnosticKind {
    PathDiagnostic(PathLoweringDiagnostic),
}

#[derive(Debug, Clone, Copy, PartialEq, Eq)]
pub enum GenericArgsProhibitedReason {
    Module,
    TyParam,
    SelfTy,
    PrimitiveTy,
    Const,
    Static,
    /// Within the expression naming a generic enum's variant, either the
    /// enum or the variant may carry generic arguments, but not both.
    EnumVariant,
}

#[derive(Debug, PartialEq, Eq, Clone)]
pub enum PathLoweringDiagnostic {
    GenericArgsProhibited { segment: u32, reason: GenericArgsProhibitedReason },
    ParenthesizedGenericArgsWithoutFnTrait { segment: u32 },
}

} // verus!
