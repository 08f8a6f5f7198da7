use wright::document::{Document, Position};
use wright::language::{DocumentIncludes, LanguageService};

fn service() -> LanguageService {
    LanguageService::new(".")
}

#[test]
fn opy_language_service_reports_provider_boundary_without_static_fallback() {
    let mut service = service();
    let document = Document::new("file:///workspace/main.opy", "globalvar score = 0\n", ".");
    service.store.open(document);
    let diagnostics = service.diagnostics("file:///workspace/main.opy");
    assert_eq!(diagnostics[0].code, "source-provider-unavailable");
    assert!(service
        .completion("file:///workspace/main.opy", Position { line: 0, character: 0 })
        .is_empty());
    assert!(service.semantic_tokens("file:///workspace/main.opy").is_empty());
}

#[test]
fn opy_rename_refuses_without_provider_editor_capability() {
    let mut service = service();
    service
        .store
        .open(Document::new("file:///workspace/main.opy", "globalvar score = 0\n", "."));
    let result = service.rename(
        "file:///workspace/main.opy",
        Position { line: 0, character: 10 },
        "total",
    );
    assert!(!result.ok);
    assert!(result.diagnostics[0].starts_with("source-provider-unavailable:"));
}

#[test]
fn unknown_documents_have_no_diagnostics_and_no_dependents() {
    let service = service();
    assert!(service.diagnostics("file:///nowhere.opy").is_empty());
    assert!(service.dependent_documents("file:///nowhere.opy", &[]).is_empty());
    assert!(service.hover("file:///nowhere.opy", Position { line: 0, character: 0 }).is_none());
}

#[test]
fn an_open_document_depends_on_itself() {
    let mut service = service();
    service.store.open(Document::new("file:///workspace/main.opy", "x", "."));
    assert_eq!(
        service.dependent_documents("file:///workspace/main.opy", &[]),
        vec!["file:///workspace/main.opy".to_string()]
    );
}

#[test]
fn dependent_documents_include_roots_that_include_the_changed_document() {
    let mut service = LanguageService::new("/project");
    service.store.open(Document::new("file:///project/main.opy", "#!include \"shared.opy\"\n", "/project"));
    service.store.open(Document::new("file:///project/other.opy", "x", "/project"));
    service.store.open(Document::new("file:///project/shared.opy", "y", "/project"));
    let includes = vec![
        DocumentIncludes {
            uri: "file:///project/main.opy".to_string(),
            files: vec!["main.opy".to_string(), "shared.opy".to_string()],
        },
        DocumentIncludes {
            uri: "file:///project/other.opy".to_string(),
            files: vec!["other.opy".to_string(), "/elsewhere/shared.opy".to_string()],
        },
    ];
    assert_eq!(
        service.dependent_documents("file:///project/shared.opy", &includes),
        vec!["file:///project/shared.opy".to_string(), "file:///project/main.opy".to_string()]
    );
    // A closed document has no entry of its own, but its includers depend on it.
    assert_eq!(
        service.dependent_documents("file:///project/gone.opy", &includes),
        Vec::<String>::new()
    );
}

#[test]
fn analysis_is_the_provider_boundary() {
    let svc = LanguageService::new("/project");
    let doc = Document::new("file:///project/main.opy", "rule x", "/project");
    let a = svc.analyze(&doc);
    assert_eq!(a.parse_errors.len(), 1);
    assert_eq!(a.parse_errors[0].code, "source-provider-unavailable");
    assert_eq!(
        a.parse_errors[0].message,
        "source-language analysis is provider-owned and no editor capability is currently negotiated"
    );
    assert!(a.parse_errors[0].span.is_none());
    assert!(a.files.is_empty());
}
