use wright::diag::{Diagnostic, Severity, Stage};
use wright::document::{Position, Range};
use wright::input::InputTarget;
use wright::lpp::{DocumentDiagnostics, LppArtifact, LppDiagnostic, LppSeverity};
use wright::session::{accept_compilation, ProviderOperation};
use wright::source_provider::{
    compile_compilation, lpp_entry, provider_diagnostics, provider_position, provider_uri_path,
    SourceCompilation, SourceLanguage, SourceProviderError, SourceProvenance, SourceTarget,
    SourceTargetKind, MAPPED_TEXT_V1, TEXT_V1,
};

#[test]
fn relative_entry_is_resolved_from_the_invocation_directory() {
    let target = SourceTarget::new(SourceLanguage::Opy, "src/main.opy", "/project");
    assert_eq!(target.entry, "/project/src/main.opy");
    assert_eq!(target.cwd, "/project");
}

#[test]
fn provider_failures_have_a_distinct_structured_code() {
    let diagnostic = SourceProviderError::Failed {
        code: "provider-exited".to_string(),
        message: "provider exited".to_string(),
    }
    .diagnostic();
    assert_eq!(diagnostic.code, "provider-exited");
    assert_eq!(diagnostic.stage, Stage::Internal);
    assert!(diagnostic.span.is_none());
}

#[test]
fn absolute_entry_is_kept_and_directory_targets_are_marked() {
    let target = SourceTarget::directory(SourceLanguage::Opy, "/elsewhere/game", "/project");
    assert_eq!(target.entry, "/elsewhere/game");
    assert!(target.is_directory());
    let target = target.with_project_root("/elsewhere".to_string());
    assert_eq!(target.project_root.as_deref(), Some("/elsewhere"));
}

#[test]
fn unconfigured_and_unsupported_failures_have_their_own_codes_and_stages() {
    let d = SourceProviderError::NotConfigured { language: SourceLanguage::Opy }.diagnostic();
    assert_eq!(d.code, "source-provider-not-configured");
    assert_eq!(d.stage, Stage::Internal);
    assert_eq!(d.message, "no source provider is configured for 'opy'");
    let d = SourceProviderError::Unsupported { message: "not here".to_string() }.diagnostic();
    assert_eq!(d.code, "source-provider-unsupported");
    assert_eq!(d.stage, Stage::Frontend);
    assert_eq!(d.message, "not here");
}

#[test]
fn entries_become_file_uris_or_a_structured_failure() {
    let target = SourceTarget::new(SourceLanguage::Opy, "main.opy", "/project dir");
    let entry = lpp_entry(&target).expect("absolute entry");
    assert_eq!(entry.uri, "file:///project%20dir/main.opy");
    assert_eq!(entry.language_id, "opy");
    assert_eq!(entry.version, 1);
    assert_eq!(entry.kind, SourceTargetKind::File);

    let relative = SourceTarget {
        language: SourceLanguage::Opy,
        entry: "main.opy".to_string(),
        kind: SourceTargetKind::File,
        cwd: "".to_string(),
        project_root: None,
    };
    match lpp_entry(&relative) {
        Err(SourceProviderError::Failed { code, message }) => {
            assert_eq!(code, "provider-invalid-entry");
            assert_eq!(message, "cannot convert OPY entry 'main.opy' to an absolute file URI");
        }
        other => panic!("unexpected {other:?}"),
    }
}

#[test]
fn provider_uris_map_to_paths_and_other_uris_stay_as_they_are() {
    assert_eq!(provider_uri_path("file:///tmp/my%20dir/main.opy"), "/tmp/my dir/main.opy");
    assert_eq!(provider_uri_path("untitled:scratch"), "untitled:scratch");
}

#[test]
fn provider_positions_become_one_based_and_saturate() {
    let p = provider_position(Position { line: 0, character: 4 });
    assert_eq!((p.line, p.col), (1, 5));
    let p = provider_position(Position { line: u32::MAX, character: u32::MAX });
    assert_eq!((p.line, p.col), (u32::MAX, u32::MAX));
}

fn lpp_diagnostic(severity: LppSeverity, code: Option<&str>, message: &str) -> LppDiagnostic {
    LppDiagnostic {
        range: Range {
            start: Position { line: 2, character: 0 },
            end: Position { line: 2, character: 3 },
        },
        severity,
        code: code.map(str::to_string),
        message: message.to_string(),
    }
}

#[test]
fn provider_diagnostics_are_flattened_with_file_numbers() {
    let docs = vec![
        DocumentDiagnostics {
            uri: "file:///p/a.opy".to_string(),
            diagnostics: vec![
                lpp_diagnostic(LppSeverity::Error, Some("opy/syntax"), "bad"),
                lpp_diagnostic(LppSeverity::Hint, None, "consider"),
            ],
        },
        DocumentDiagnostics {
            uri: "untitled:b".to_string(),
            diagnostics: vec![lpp_diagnostic(LppSeverity::Warning, None, "careful")],
        },
    ];
    let out = provider_diagnostics(&docs, Some("de-DE"));
    assert_eq!(out.len(), 3);
    assert_eq!(out[0].code, "opy/syntax");
    assert_eq!(out[0].severity, Severity::Error);
    assert_eq!(out[0].stage, Stage::Frontend);
    let span = out[0].span.as_ref().unwrap();
    assert_eq!((span.file, span.path.as_str()), (0, "/p/a.opy"));
    assert_eq!((span.start.line, span.start.col, span.end.col), (3, 1, 4));
    assert_eq!(out[1].code, "provider-diagnostic");
    assert_eq!(out[1].severity, Severity::Info);
    assert_eq!(out[2].severity, Severity::Warning);
    let span = out[2].span.as_ref().unwrap();
    assert_eq!((span.file, span.path.as_str()), (1, "untitled:b"));
    let origin = out[2].source.as_ref().unwrap();
    assert_eq!(origin.kind, "opy");
    assert_eq!(origin.locale.as_deref(), Some("de-DE"));
}

#[test]
fn text_artifacts_compile_to_workshop_text() {
    let artifact = LppArtifact { format: TEXT_V1.to_string(), content: "rule(\"r\") {}".to_string() };
    let c = compile_compilation(Some(artifact), false, &[], Some("abc".to_string()), None)
        .expect("text artifact");
    assert_eq!(c.workshop_text.as_deref(), Some("rule(\"r\") {}"));
    assert!(matches!(c.provenance, SourceProvenance::Unmapped));
    assert_eq!(c.source_identity.as_deref(), Some("abc"));
    let c = compile_compilation(None, true, &[], None, None).expect("no artifact");
    assert!(c.workshop_text.is_none());
}

#[test]
fn unsupported_and_malformed_artifacts_are_refused() {
    let artifact = LppArtifact { format: "other/v9".to_string(), content: String::new() };
    match compile_compilation(Some(artifact), true, &[], None, None) {
        Err(SourceProviderError::Failed { code, message }) => {
            assert_eq!(code, "provider-artifact-format");
            assert_eq!(
                message,
                "the source provider returned unsupported artifact format 'other/v9', expected 'workshop-rs/text-v1'"
            );
        }
        other => panic!("unexpected {other:?}"),
    }
    // A mapped artifact is only accepted after artifact negotiation.
    let mapped = LppArtifact { format: MAPPED_TEXT_V1.to_string(), content: "{}".to_string() };
    assert!(compile_compilation(Some(mapped.clone()), false, &[], None, None).is_err());
    match compile_compilation(Some(mapped), true, &[], None, None) {
        Err(SourceProviderError::Failed { code, message }) => {
            assert_eq!(code, "provider-artifact-format");
            assert!(message.starts_with(
                "the source provider returned an invalid 'workshop-rs/mapped-text-v1' artifact: "
            ));
        }
        other => panic!("unexpected {other:?}"),
    }
}

fn compilation(
    text: Option<&str>,
    diagnostics: Vec<Diagnostic>,
    identity: Option<&str>,
) -> SourceCompilation {
    SourceCompilation {
        workshop_text: text.map(str::to_string),
        locale: None,
        provenance: SourceProvenance::Unmapped,
        diagnostics,
        source_identity: identity.map(str::to_string),
    }
}

const DIGEST: &str = "0123456789abcdef0123456789abcdef0123456789abcdef0123456789abcdef";

#[test]
fn a_directory_compile_takes_the_provider_identity() {
    let load = accept_compilation(
        ProviderOperation::Compile,
        InputTarget::Directory,
        "old",
        Some("fr-FR"),
        compilation(Some("text"), vec![], Some(DIGEST)),
    )
    .expect("accepted");
    assert_eq!(load.identity, DIGEST);
    assert_eq!(load.locale, "fr-FR");
    assert_eq!(load.workshop_text.as_deref(), Some("text"));
}

#[test]
fn a_directory_compile_without_a_valid_identity_is_refused() {
    let (d, kept) = accept_compilation(
        ProviderOperation::Compile,
        InputTarget::Directory,
        "old",
        None,
        compilation(Some("text"), vec![], None),
    )
    .unwrap_err();
    assert_eq!(d.code, "source-provider-identity");
    assert_eq!(d.message, "the source provider returned no source identity for the directory target");
    assert!(kept.is_empty());
    let (d, _) = accept_compilation(
        ProviderOperation::Compile,
        InputTarget::Directory,
        "old",
        None,
        compilation(Some("text"), vec![], Some("xyz")),
    )
    .unwrap_err();
    assert_eq!(d.message, "the source provider returned an invalid SHA-256 source identity");
}

#[test]
fn the_first_provider_error_refuses_the_load_and_the_rest_are_kept() {
    let warning = Diagnostic::warning("w", Stage::Frontend, "first warning");
    let error = Diagnostic::error("e", Stage::Frontend, "the error");
    let later = Diagnostic::error("e2", Stage::Frontend, "a later error");
    let (d, kept) = accept_compilation(
        ProviderOperation::Compile,
        InputTarget::File,
        "id",
        None,
        compilation(Some("text"), vec![warning, error, later], None),
    )
    .unwrap_err();
    assert_eq!(d.code, "e");
    let codes: Vec<&str> = kept.iter().map(|d| d.code.as_str()).collect();
    assert_eq!(codes, vec!["w", "e2"]);
}

#[test]
fn checks_load_no_program_and_compiles_need_an_artifact() {
    let load = accept_compilation(
        ProviderOperation::Check,
        InputTarget::Directory,
        "id",
        None,
        compilation(None, vec![Diagnostic::warning("w", Stage::Frontend, "note")], None),
    )
    .expect("a check loads");
    assert!(load.workshop_text.is_none());
    assert_eq!(load.identity, "id");
    assert_eq!(load.locale, "en-US");
    assert_eq!(load.diagnostics.len(), 1);

    let (d, kept) = accept_compilation(
        ProviderOperation::Compile,
        InputTarget::File,
        "id",
        None,
        compilation(None, vec![Diagnostic::warning("w", Stage::Frontend, "note")], None),
    )
    .unwrap_err();
    assert_eq!(d.code, "source-provider-no-artifact");
    assert_eq!(kept.len(), 1);
}
