use wright::artifact::{
    artifact_diagnostic, load_provider_artifact, workshop_diag, WorkshopFailure, WorkshopFailureKind,
};
use wright::diag::{Origin, Severity, Stage};
use wright::hir::Span;
use wright::ir::Position;
use wright::session::Provenance;

fn origin() -> Origin {
    Origin { kind: "opy".to_string(), locale: Some("en-US".to_string()) }
}

fn failure(kind: WorkshopFailureKind, file: usize) -> WorkshopFailure {
    WorkshopFailure {
        kind,
        message: "bad token".to_string(),
        span: Some(Span::new(file, Position::new(2, 3), Position::new(2, 7))),
    }
}

#[test]
fn workshop_errors_map_to_frontend_diagnostics_in_the_input() {
    let d = workshop_diag(
        &failure(WorkshopFailureKind::Unknown { kind: "action".to_string() }, 0),
        "main.opy",
        &origin(),
    );
    assert_eq!(d.code, "unknown-action");
    assert_eq!(d.stage, Stage::Frontend);
    assert_eq!(d.severity, Severity::Error);
    assert_eq!(d.message, "bad token");
    let span = d.span.expect("a span");
    assert_eq!(span.path, "main.opy");
    assert_eq!((span.start.line, span.start.col, span.end.col), (2, 3, 7));
    assert_eq!(d.source, Some(origin()));
}

#[test]
fn catalog_errors_are_internal_and_have_no_place() {
    let d = workshop_diag(&failure(WorkshopFailureKind::Catalog, 0), "main.opy", &origin());
    assert_eq!(d.code, "catalog-error");
    assert_eq!(d.stage, Stage::Internal);
    assert!(d.span.is_none());
    assert!(d.source.is_none());
}

#[test]
fn unmapped_artifact_errors_point_into_the_artifact() {
    let d = artifact_diagnostic(&failure(WorkshopFailureKind::Malformed, 0), "main.opy", &origin(), &vec![]);
    assert_eq!(d.code, "parse-error");
    assert_eq!(d.span.expect("a span").path, "<provider-artifact>");
    let source = d.source.expect("a source");
    assert_eq!(source.kind, "provider-artifact");
    assert_eq!(source.locale.as_deref(), Some("en-US"));
}

#[test]
fn mapped_artifact_errors_name_the_authored_file() {
    let paths = vec!["src/a.opy".to_string(), "src/b.opy".to_string()];
    let d = artifact_diagnostic(&failure(WorkshopFailureKind::Unsupported, 1), "main.opy", &origin(), &paths);
    assert_eq!(d.code, "unsupported-construct");
    assert_eq!(d.span.expect("a span").path, "src/b.opy");
    assert_eq!(d.source, Some(origin()));
    // A file outside the map's table leaves no span, and the artifact as the source.
    let d = artifact_diagnostic(&failure(WorkshopFailureKind::Unsupported, 5), "main.opy", &origin(), &paths);
    assert!(d.span.is_none());
    assert_eq!(d.source.expect("a source").kind, "provider-artifact");
}

#[test]
fn a_well_formed_artifact_loads_unmapped_without_a_map() {
    let text = "rule(\"r\") { event { Ongoing - Global; } }";
    let loaded = load_provider_artifact(text, "en-US", None, "main.opy");
    match loaded {
        Ok(l) => {
            assert_eq!(l.provenance, Provenance::Unmapped);
            assert_eq!(l.source_files, vec!["main.opy".to_string()]);
            assert!(l.warnings.is_empty());
        }
        Err(f) => panic!("unexpected failure {:?}", f.failure),
    }
}

#[test]
fn a_malformed_artifact_fails_with_no_mapped_files() {
    let loaded = load_provider_artifact("rule(", "en-US", None, "main.opy");
    match loaded {
        Ok(_) => panic!("a malformed artifact must not load"),
        Err(f) => {
            assert!(f.mapped_files.is_empty());
            assert!(!f.failure.message.is_empty());
        }
    }
}

#[test]
fn an_unreadable_source_map_leaves_the_artifact_unmapped_with_a_warning() {
    let text = "rule(\"r\") { event { Ongoing - Global; } }";
    let loaded = load_provider_artifact(text, "en-US", Some("not json"), "main.opy");
    match loaded {
        Ok(l) => {
            assert_eq!(l.provenance, Provenance::Unmapped);
            assert_eq!(l.source_files, vec!["main.opy".to_string()]);
            assert_eq!(l.warnings.len(), 1);
            assert_eq!(l.warnings[0].code, "source-map-mismatch");
            assert!(l.warnings[0].message.starts_with("the provider source map does not match its Workshop artifact ("));
        }
        Err(f) => panic!("unexpected failure {:?}", f.failure),
    }
}

#[test]
fn a_loaded_artifact_compiles_to_emitted_workshop_text() {
    let text = "rule(\"r\") { event { Ongoing - Global; } }";
    match wright::artifact::compile_artifact(text, " en-US ", None, "main.opy", "abc") {
        Ok(c) => {
            assert!(c.text.contains("Ongoing - Global"), "{}", c.text);
            assert_eq!(c.sha256, wright::input_identity(&c.text));
            assert_eq!(c.locale, "en-us");
            assert_eq!(c.input_identity, "abc");
            assert!(c.written_to.is_empty());
        }
        Err(_) => panic!("the artifact compiles"),
    }
}

#[test]
fn a_malformed_artifact_does_not_compile() {
    assert!(matches!(
        wright::artifact::compile_artifact("rule(", "en-US", None, "main.opy", "abc"),
        Err(wright::artifact::CompileFailure::Load(_))
    ));
}
