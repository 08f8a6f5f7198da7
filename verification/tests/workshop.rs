use wright::diag::{Severity, Stage};
use wright::provider::Status;
use wright::workshop_compat::{catalog_failure, is_debug_hud_call, ValueShape, WorkshopSemanticSide};
use wright::workshop_provider::{
    diagnostic_code, diagnostics_for, map_issue, status_for_classification, IncompletenessKind,
    IssueSpan, ProviderError, ResidualClassification, WorkshopIssue, WorkshopProvider,
};
use wright::diag::Position;

#[test]
fn maps_residual_classifications_fail_closed() {
    assert_eq!(status_for_classification(ResidualClassification::ProjectDefinedConstruct), Status::Partial);
    assert_eq!(status_for_classification(ResidualClassification::SourceDeclaredVariable), Status::Partial);
    assert_eq!(status_for_classification(ResidualClassification::ProducerExtension), Status::Unsupported);
    assert_eq!(status_for_classification(ResidualClassification::LegacyOpaque), Status::Unsupported);
    assert_eq!(status_for_classification(ResidualClassification::UnresolvedIdentifier), Status::Unsupported);
    assert_eq!(
        status_for_classification(ResidualClassification::CatalogSpellingNearMiss),
        Status::Unsupported
    );
}

#[test]
fn workshop_provider_check_and_parse_failure() {
    let provider = WorkshopProvider::new().expect("provider initializes");
    let error = provider
        .check("not Workshop source", "broken.txt")
        .expect_err("malformed Workshop must not disappear");
    assert_eq!(error.code, "workshop.locale");
}

#[test]
fn diagnostic_codes_lower_case_the_identity_and_dash_the_rest() {
    assert_eq!(diagnostic_code("unknown-action", "Foo Bar_1"), "workshop.unknown-action.foo-bar-1");
    assert_eq!(diagnostic_code("raw-setting", "Ü"), "workshop.raw-setting.-");
    assert_eq!(diagnostic_code("opaque-action", ""), "workshop.opaque-action.");
}

#[test]
fn residual_issues_become_structured_diagnostics() {
    let issue = WorkshopIssue {
        kind: IncompletenessKind::UnknownAction,
        name: "Create Beam".to_string(),
        span: Some(IssueSpan { start: Position { line: 3, col: 2 }, end: Position { line: 3, col: 9 } }),
        classification: ResidualClassification::ProducerExtension,
    };
    let d = map_issue(&issue, "mode.ws");
    assert_eq!(d.code, "workshop.unknown-action.create-beam");
    assert_eq!(d.stage, Stage::Analysis);
    assert_eq!(d.severity, Severity::Error);
    assert_eq!(d.status, Some(Status::Unsupported));
    assert_eq!(d.message, "Workshop construct 'Create Beam' is unsupported (producer-extension)");
    let span = d.span.expect("span");
    assert_eq!((span.file, span.path.as_str()), (0, "mode.ws"));
    assert_eq!((span.start.line, span.start.col, span.end.col), (3, 2, 9));

    let raw = WorkshopIssue {
        kind: IncompletenessKind::RawSetting,
        name: "lobby.x".to_string(),
        span: None,
        classification: ResidualClassification::ProjectDefinedConstruct,
    };
    let ds = diagnostics_for(&[issue, raw], "mode.ws");
    assert_eq!(ds.len(), 2);
    assert_eq!(ds[1].severity, Severity::Warning);
    assert_eq!(
        ds[1].message,
        "Workshop construct 'lobby.x' is partially supported (project-defined-construct)"
    );
    let span = ds[1].span.as_ref().unwrap();
    assert_eq!((span.start.line, span.start.col, span.end.line, span.end.col), (1, 1, 1, 1));
}

#[test]
fn provider_errors_display_code_and_message() {
    let e = ProviderError::new("workshop.parse", "unexpected token");
    assert_eq!(e.to_string(), "workshop.parse: unexpected token");
}

#[test]
fn a_catalog_failure_fails_both_sides() {
    let c = catalog_failure("boom");
    assert!(!c.equivalent);
    for side in [&c.expected, &c.actual] {
        assert!(!side.parsed);
        assert_eq!(side.error.as_deref(), Some("catalog initialization failed: boom"));
        assert!(side.dump.is_none());
    }
    let parsed = WorkshopSemanticSide::parsed("dump");
    assert!(parsed.parsed && parsed.error.is_none());
}

#[test]
fn provider_errors_read_as_code_colon_message() {
    let e = wright::provider::ProviderError::new("workshop.parse", "unexpected token");
    assert_eq!(e.to_string(), "workshop.parse: unexpected token");
}

#[test]
fn identical_workshop_texts_are_equivalent() {
    let text = "rule(\"r\") { event { Ongoing - Global; } }";
    let c = wright::workshop_compat::compare_workshop_texts(text, text);
    assert!(c.expected.parsed && c.actual.parsed);
    assert!(c.expected.dump.is_some());
    assert!(c.equivalent);
}

#[test]
fn a_malformed_workshop_text_fails_its_side() {
    let good = "rule(\"r\") { event { Ongoing - Global; } }";
    let c = wright::workshop_compat::compare_workshop_texts(good, "rule(");
    assert!(c.expected.parsed);
    assert!(!c.actual.parsed);
    assert!(c.actual.error.is_some());
    assert!(!c.equivalent);
}

#[test]
fn debug_hud_strings_differ_without_changing_equivalence() {
    let hud = |s: &str| {
        format!(
            "rule(\"r\") {{ event {{ Ongoing - Global; }} actions {{ Create HUD Text(All Players(All Teams), Null, Custom String(\"{s}\"), Null, Left, 0, Color(White), Color(White), Color(White), Visible To and String, Default Visibility); }} }}"
        )
    };
    let c = wright::workshop_compat::compare_workshop_texts(&hud("one"), &hud("two"));
    assert!(c.expected.parsed, "{:?}", c.expected.error);
    assert!(c.equivalent);
}

#[test]
fn debug_hud_calls_are_recognized_by_shape() {
    let custom = ValueShape::Call { name: "customString".to_string(), args: 1 };
    assert!(is_debug_hud_call("createHudText", 11, &ValueShape::Null, &custom));
    assert!(!is_debug_hud_call("createHudText", 11, &ValueShape::String, &custom));
    assert!(!is_debug_hud_call("createHudText", 2, &ValueShape::Null, &custom));
    assert!(!is_debug_hud_call("createEffect", 11, &ValueShape::Null, &custom));
}
