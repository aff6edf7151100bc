use test_runner::diagnostics::{
    GenericArgsProhibitedReason, PathLoweringDiagnostic, TyLoweringDiagnostic,
    TyLoweringDiagnosticKind, TypeRefId,
};

#[test]
fn diagnostics_compare_structurally() {
    let d1 = TyLoweringDiagnostic {
        source: TypeRefId(7),
        kind: TyLoweringDiagnosticKind::PathDiagnostic(
            PathLoweringDiagnostic::GenericArgsProhibited {
                segment: 2,
                reason: GenericArgsProhibitedReason::EnumVariant,
            },
        ),
    };
    let d2 = d1.clone();
    assert_eq!(d1, d2);
    let d3 = TyLoweringDiagnostic {
        source: TypeRefId(7),
        kind: TyLoweringDiagnosticKind::PathDiagnostic(
            PathLoweringDiagnostic::ParenthesizedGenericArgsWithoutFnTrait { segment: 2 },
        ),
    };
    assert_ne!(d1, d3);
}
