use wright::document::{Position, Range};
use wright::edit::{EditRange, EditTransaction, SourceEdit, SourceTexts};
use wright::input_identity;
use wright::lpp::{
    CheckResult, DocumentDiagnostics, DocumentEdits, LppDiagnostic, LppDocument, LppSeverity,
    LppTextEdit, ProviderFailure, RenameResult, ValidateEditsResult,
};
use wright::provider_edit::{
    char_column_to_utf16, provider_failure, rename_edits, to_edit_range, to_text_edit,
    utf16_to_char_column, DocumentSet, ProviderAction, ProviderEditFlow, ProviderEvent,
    ProviderMutation, ProviderRenameRequest, ProviderValidateRequest,
};

const URI: &str = "file:///project/puzzle.xdl";
const CLEAN: &str = "puzzle clean {\n  target = 40\n  start = 10\n  ops {\n    double: x => x * 2\n    plus1: x => x + 1\n  }\n  solution = [ double, double ]\n}";

fn document(text: &str) -> LppDocument {
    LppDocument {
        uri: URI.to_string(),
        language_id: "x-demo-lang".to_string(),
        version: 3,
        text: text.to_string(),
    }
}

fn document_set() -> DocumentSet {
    let mut documents = DocumentSet::new();
    documents.insert(document(CLEAN));
    documents
}

fn sources(text: &str) -> SourceTexts {
    let mut sources = SourceTexts::new();
    sources.insert(URI.to_string(), text.to_string());
    sources
}

fn rename_request() -> ProviderRenameRequest {
    ProviderRenameRequest {
        documents: document_set(),
        position_document_uri: URI.to_string(),
        position: Position { line: 4, character: 6 },
        new_name: "twice".to_string(),
        project_root: Some("file:///project".to_string()),
        sources: sources(CLEAN),
    }
}

fn text_edit(line: u32, start: u32, end: u32) -> LppTextEdit {
    LppTextEdit {
        range: Range {
            start: Position { line, character: start },
            end: Position { line, character: end },
        },
        new_text: "twice".to_string(),
    }
}

/// The provider's rename edit set for `CLEAN`: the declaration and both
/// references.
fn clean_rename_result() -> RenameResult {
    RenameResult {
        edits: vec![DocumentEdits {
            document_uri: URI.to_string(),
            version: 3,
            text_edits: vec![text_edit(4, 4, 10), text_edit(7, 15, 21), text_edit(7, 23, 29)],
        }],
    }
}

fn valid() -> Result<ValidateEditsResult, ProviderFailure> {
    Ok(ValidateEditsResult { valid: true, version: 3, reason: None, failing_edit_index: None })
}

fn ok_check() -> Result<CheckResult, ProviderFailure> {
    Ok(CheckResult { documents: vec![] })
}

/// A scripted provider: each request gets its canned reply.
struct Script {
    rename: Result<RenameResult, ProviderFailure>,
    validate_edits: Result<ValidateEditsResult, ProviderFailure>,
    check: Result<CheckResult, ProviderFailure>,
}

fn drive(mut flow: ProviderEditFlow, mut action: ProviderAction, script: &Script) -> ProviderMutation {
    loop {
        let event = match action {
            ProviderAction::Rename { .. } => ProviderEvent::Renamed(script.rename.clone()),
            ProviderAction::ValidateEdits { .. } => {
                ProviderEvent::Validated(script.validate_edits.clone())
            }
            ProviderAction::Check { .. } => ProviderEvent::Checked(script.check.clone()),
            ProviderAction::Finish(mutation) => return mutation,
        };
        let (next, next_action) = flow.step(event);
        flow = next;
        action = next_action;
    }
}

fn semantic_rename(script: &Script, request: ProviderRenameRequest) -> ProviderMutation {
    let (flow, action) = ProviderEditFlow::semantic_rename(request);
    drive(flow, action, script)
}

fn validate_transaction(script: &Script, request: ProviderValidateRequest) -> ProviderMutation {
    let (flow, action) = ProviderEditFlow::validate_transaction(request);
    drive(flow, action, script)
}

// ---------------------------------------------------------------------------
// Position conversion
// ---------------------------------------------------------------------------

#[test]
fn utf16_ranges_convert_to_wright_columns_and_back() {
    // "puzzle αβ {": α and β are one UTF-16 unit each.
    let text = "puzzle αβ {\n  target = 40\n}";
    let lpp = Range {
        start: Position { line: 0, character: 7 },
        end: Position { line: 0, character: 9 },
    };
    let wright = to_edit_range(text, lpp).expect("converts");
    assert_eq!(wright, EditRange { start_line: 1, start_col: 8, end_line: 1, end_col: 10 });
    // Round trip: the Wright range converts back to the same UTF-16 offsets.
    let back = to_text_edit(
        text,
        &SourceEdit {
            edit_kind: "rename".to_string(),
            source: URI.to_string(),
            source_identity: input_identity(text),
            range: wright,
            new_text: "x".to_string(),
        },
    )
    .expect("converts back");
    assert_eq!(back.range, lpp);
}

#[test]
fn utf16_offset_inside_a_supplementary_character_refuses() {
    // "𝕏" is one character but two UTF-16 code units; offset 8 is inside it.
    let text = "puzzle 𝕏 {";
    let error = to_edit_range(
        text,
        Range {
            start: Position { line: 0, character: 7 },
            end: Position { line: 0, character: 8 },
        },
    )
    .expect_err("inside a supplementary character");
    assert_eq!(error.code, "edit-invalid-range");
    assert_eq!(
        error.message,
        "the range end names UTF-16 offset 8 in line 0, which is not a character boundary of that line"
    );
}

#[test]
fn position_at_end_of_line_is_valid() {
    let text = "ab\ncd";
    let wright = to_edit_range(
        text,
        Range {
            start: Position { line: 0, character: 2 },
            end: Position { line: 0, character: 2 },
        },
    )
    .expect("end of line is a valid insertion point");
    assert_eq!(wright.start_line, 1);
    assert_eq!(wright.start_col, 3);
}

#[test]
fn reversed_and_missing_ranges_are_refused() {
    let text = "ab\ncd";
    let error = to_edit_range(
        text,
        Range {
            start: Position { line: 1, character: 1 },
            end: Position { line: 0, character: 1 },
        },
    )
    .unwrap_err();
    assert_eq!(error.message, "the provider edit range 1-1:0-1 is not a valid range of the document");
    let error = to_edit_range(
        text,
        Range {
            start: Position { line: 5, character: 0 },
            end: Position { line: 5, character: 0 },
        },
    )
    .unwrap_err();
    assert_eq!(error.message, "the range start names line 5, but the document has 2 lines");
}

#[test]
fn wright_columns_outside_a_line_are_refused() {
    let edit = SourceEdit {
        edit_kind: "rename".to_string(),
        source: URI.to_string(),
        source_identity: input_identity("ab"),
        range: EditRange { start_line: 1, start_col: 1, end_line: 1, end_col: 4 },
        new_text: String::new(),
    };
    let error = to_text_edit("ab", &edit).unwrap_err();
    assert_eq!(
        error.message,
        "the edit names column 4 in line 1, which is outside that line (line 1 has 2 characters)"
    );
}

#[test]
fn column_conversions_agree_on_a_non_bmp_line() {
    let line: Vec<char> = "🎯x".chars().collect();
    assert_eq!(utf16_to_char_column(&line, 0), Some(1));
    assert_eq!(utf16_to_char_column(&line, 1), None);
    assert_eq!(utf16_to_char_column(&line, 2), Some(2));
    assert_eq!(utf16_to_char_column(&line, 3), Some(3));
    assert_eq!(utf16_to_char_column(&line, 4), None);
    assert_eq!(char_column_to_utf16(&line, 0), None);
    assert_eq!(char_column_to_utf16(&line, 2), Some(2));
    assert_eq!(char_column_to_utf16(&line, 3), Some(3));
    assert_eq!(char_column_to_utf16(&line, 4), None);
}

// ---------------------------------------------------------------------------
// Flow behavior with a scripted provider
// ---------------------------------------------------------------------------

#[test]
fn rename_wraps_provider_edits_in_a_wright_transaction() {
    let script = Script { rename: Ok(clean_rename_result()), validate_edits: valid(), check: ok_check() };
    let mutation = semantic_rename(&script, rename_request());
    assert!(mutation.ok, "rename succeeds: {:?}", mutation.diagnostics);
    let transaction = mutation.transaction.expect("transaction");
    assert_eq!(transaction.edits.len(), 3);
    assert!(
        transaction.edits.iter().all(|edit| edit.edit_kind == "rename"),
        "provider edits arrive as Wright rename edits"
    );
    assert!(
        transaction.edits.iter().all(|edit| edit.source_identity == input_identity(CLEAN)),
        "every edit carries the identity precondition of the text it was computed against"
    );
    // Deterministic ordering: declaration first, then the two references.
    assert_eq!(transaction.edits[0].range.start_line, 5);
    assert_eq!(transaction.edits[1].range.start_line, 8);
    assert_eq!(transaction.edits[2].range.start_line, 8);
    let preview = mutation.preview.expect("preview");
    assert_eq!(preview.len(), 1);
    assert!(preview[0].new_text.contains("twice: x => x * 2"));
    assert!(preview[0].new_text.contains("solution = [ twice, twice ]"));
}

#[test]
fn rename_edits_are_never_outside_the_request_document_set() {
    let mut result = clean_rename_result();
    result.edits[0].document_uri = "file:///project/other.xdl".to_string();
    let script = Script { rename: Ok(result), validate_edits: valid(), check: ok_check() };
    let mutation = semantic_rename(&script, rename_request());
    assert!(!mutation.ok);
    assert_eq!(mutation.diagnostics[0].code, "provider-edit-outside-set");
    assert!(mutation.transaction.is_none());
    assert!(mutation.preview.is_none());
}

#[test]
fn rename_version_echo_mismatch_is_a_stale_refusal() {
    let mut result = clean_rename_result();
    result.edits[0].version = 2;
    let script = Script { rename: Ok(result), validate_edits: valid(), check: ok_check() };
    let mutation = semantic_rename(&script, rename_request());
    assert!(!mutation.ok);
    assert_eq!(mutation.diagnostics[0].code, "edit-stale-source");
    assert!(mutation.transaction.is_none());
    assert!(mutation.preview.is_none());
}

#[test]
fn stale_current_sources_refuse_without_a_partial_edit_set() {
    let mut request = rename_request();
    request.sources = sources(&format!("{CLEAN}\n"));
    let script = Script { rename: Ok(clean_rename_result()), validate_edits: valid(), check: ok_check() };
    let mutation = semantic_rename(&script, request);
    assert!(!mutation.ok);
    assert_eq!(mutation.diagnostics[0].code, "edit-stale-source");
    assert!(mutation.transaction.is_none());
    assert!(mutation.preview.is_none());
}

#[test]
fn provider_failure_mid_rename_refuses_without_partial_application() {
    let script = Script {
        rename: Ok(clean_rename_result()),
        validate_edits: Err(ProviderFailure {
            code: "provider-exited".to_string(),
            refusal_code: None,
            message: "the LPP provider process exited".to_string(),
        }),
        check: ok_check(),
    };
    let mutation = semantic_rename(&script, rename_request());
    assert!(!mutation.ok);
    assert_eq!(mutation.diagnostics[0].code, "provider-error");
    assert_eq!(mutation.provider_code.as_deref(), Some("provider-exited"));
    assert!(mutation.transaction.is_none());
    assert!(mutation.preview.is_none());
}

#[test]
fn rename_refusal_passes_through_the_provider_code() {
    let script = Script {
        rename: Err(ProviderFailure {
            code: "lpp-refusal".to_string(),
            refusal_code: Some("rename.nameCollision".to_string()),
            message: "new name collides with an existing symbol".to_string(),
        }),
        validate_edits: valid(),
        check: ok_check(),
    };
    let mutation = semantic_rename(&script, rename_request());
    assert!(!mutation.ok);
    assert_eq!(mutation.diagnostics[0].code, "provider-refusal");
    assert_eq!(mutation.provider_code.as_deref(), Some("rename.nameCollision"));
    assert!(mutation.transaction.is_none());
    assert!(mutation.preview.is_none());
}

#[test]
fn unsupported_capability_is_an_explicit_refusal_not_a_fallback() {
    let script = Script {
        rename: Err(ProviderFailure {
            code: "capability-unavailable".to_string(),
            refusal_code: None,
            message: "capability 'rename' is not available in this session".to_string(),
        }),
        validate_edits: valid(),
        check: ok_check(),
    };
    let mutation = semantic_rename(&script, rename_request());
    assert!(!mutation.ok);
    assert_eq!(mutation.provider_code.as_deref(), Some("capability-unavailable"));
    assert!(mutation.transaction.is_none());
    assert!(mutation.preview.is_none());
}

#[test]
fn semantic_validation_failure_refuses_without_partial_application() {
    let script = Script {
        rename: Ok(clean_rename_result()),
        validate_edits: Ok(ValidateEditsResult {
            valid: false,
            version: 3,
            reason: Some("syntaxError".to_string()),
            failing_edit_index: None,
        }),
        check: ok_check(),
    };
    let mutation = semantic_rename(&script, rename_request());
    assert!(!mutation.ok);
    assert_eq!(mutation.diagnostics[0].code, "provider-validation-failed");
    assert!(mutation.transaction.is_none());
    assert!(mutation.preview.is_none());
}

#[test]
fn edited_project_check_refuses_on_error_severity_diagnostics() {
    let script = Script {
        rename: Ok(clean_rename_result()),
        validate_edits: valid(),
        check: Ok(CheckResult {
            documents: vec![DocumentDiagnostics {
                uri: URI.to_string(),
                diagnostics: vec![LppDiagnostic {
                    range: Range {
                        start: Position { line: 7, character: 15 },
                        end: Position { line: 7, character: 21 },
                    },
                    severity: LppSeverity::Error,
                    code: Some("x-demo/unresolved-op".to_string()),
                    message: "unresolved op reference 'twice'".to_string(),
                }],
            }],
        }),
    };
    let mutation = semantic_rename(&script, rename_request());
    assert!(!mutation.ok);
    assert_eq!(mutation.diagnostics[0].code, "provider-semantic-error");
    assert!(mutation.transaction.is_none());
    assert!(mutation.preview.is_none());
}

#[test]
fn validate_transaction_runs_the_provider_gates_on_a_caller_transaction() {
    let transaction = EditTransaction::new(vec![SourceEdit {
        edit_kind: "rename".to_string(),
        source: URI.to_string(),
        source_identity: input_identity(CLEAN),
        range: EditRange { start_line: 5, start_col: 5, end_line: 5, end_col: 11 },
        new_text: "twice".to_string(),
    }])
    .expect("transaction");
    let request = ProviderValidateRequest {
        documents: document_set(),
        transaction,
        sources: sources(CLEAN),
        project_root: None,
    };
    let script = Script { rename: Ok(RenameResult { edits: vec![] }), validate_edits: valid(), check: ok_check() };
    let mutation = validate_transaction(&script, request);
    assert!(mutation.ok, "validation succeeds: {:?}", mutation.diagnostics);
    assert!(mutation.preview.is_some());
}

#[test]
fn validate_transaction_refuses_a_stale_caller_transaction() {
    let transaction = EditTransaction::new(vec![SourceEdit {
        edit_kind: "rename".to_string(),
        source: URI.to_string(),
        source_identity: input_identity("puzzle stale {\n}"),
        range: EditRange { start_line: 1, start_col: 8, end_line: 1, end_col: 12 },
        new_text: "twice".to_string(),
    }])
    .expect("transaction");
    let request = ProviderValidateRequest {
        documents: document_set(),
        transaction,
        sources: sources(CLEAN),
        project_root: None,
    };
    let script = Script { rename: Ok(RenameResult { edits: vec![] }), validate_edits: valid(), check: ok_check() };
    let mutation = validate_transaction(&script, request);
    assert!(!mutation.ok);
    assert_eq!(mutation.diagnostics[0].code, "edit-stale-source");
    assert!(mutation.transaction.is_none());
    assert!(mutation.preview.is_none());
}

// ---------------------------------------------------------------------------
// The flow's requests and messages.
// ---------------------------------------------------------------------------

#[test]
fn the_flow_asks_for_a_verdict_then_checks_the_edited_project() {
    let (flow, action) = ProviderEditFlow::semantic_rename(rename_request());
    match &action {
        ProviderAction::Rename { documents, position_document_uri, position, new_name, project_root } => {
            assert_eq!(documents.documents().len(), 1);
            assert_eq!(documents.documents()[0].uri, URI);
            assert_eq!(position_document_uri, URI);
            assert_eq!(*position, Position { line: 4, character: 6 });
            assert_eq!(new_name, "twice");
            assert_eq!(project_root.as_deref(), Some("file:///project"));
        }
        other => panic!("unexpected {other:?}"),
    }
    let (flow, action) = flow.step(ProviderEvent::Renamed(Ok(clean_rename_result())));
    match &action {
        ProviderAction::ValidateEdits { document, edits } => {
            assert_eq!(document.uri, URI);
            assert_eq!(document.version, 3);
            // Edits go back in provider coordinates, in transaction order.
            let starts: Vec<(u32, u32)> =
                edits.iter().map(|e| (e.range.start.line, e.range.start.character)).collect();
            assert_eq!(starts, vec![(4, 4), (7, 15), (7, 23)]);
        }
        other => panic!("unexpected {other:?}"),
    }
    let (flow, action) = flow.step(ProviderEvent::Validated(valid()));
    match &action {
        ProviderAction::Check { documents, project_root } => {
            assert_eq!(project_root.as_deref(), Some("file:///project"));
            let docs = documents.documents();
            assert_eq!(docs.len(), 1);
            assert_eq!(docs[0].version, 4, "the edited document's version advances");
            assert!(docs[0].text.contains("twice: x => x * 2"));
            assert_eq!(docs[0].language_id, "x-demo-lang");
        }
        other => panic!("unexpected {other:?}"),
    }
    let (_, action) = flow.step(ProviderEvent::Checked(ok_check()));
    match action {
        ProviderAction::Finish(m) => assert!(m.ok && m.diagnostics.is_empty()),
        other => panic!("unexpected {other:?}"),
    }
}

#[test]
fn stale_and_refused_verdicts_name_the_versions_and_the_reason() {
    let script = Script {
        rename: Ok(clean_rename_result()),
        validate_edits: Ok(ValidateEditsResult { valid: true, version: 2, reason: None, failing_edit_index: None }),
        check: ok_check(),
    };
    let m = semantic_rename(&script, rename_request());
    assert_eq!(
        m.diagnostics[0].message,
        "the provider validated edits for 'file:///project/puzzle.xdl' against version 2, but the current version is 3; re-fetch the source and retry"
    );
    let script = Script {
        rename: Ok(clean_rename_result()),
        validate_edits: Ok(ValidateEditsResult { valid: false, version: 3, reason: None, failing_edit_index: Some(1) }),
        check: ok_check(),
    };
    let m = semantic_rename(&script, rename_request());
    assert_eq!(
        m.diagnostics[0].message,
        "the provider refused the edits for 'file:///project/puzzle.xdl': the edited source is invalid (failing edit 1)"
    );
}

#[test]
fn provider_failures_keep_their_code_and_message() {
    let m = provider_failure(&ProviderFailure {
        code: "provider-exited".to_string(),
        refusal_code: None,
        message: "gone".to_string(),
    });
    assert_eq!(m.diagnostics[0].message, "the provider failed the request (provider-exited): gone");
    assert_eq!(m.provider_message.as_deref(), Some("gone"));
    let m = provider_failure(&ProviderFailure {
        code: "lpp-refusal".to_string(),
        refusal_code: Some("rename.bad".to_string()),
        message: "no".to_string(),
    });
    assert_eq!(m.diagnostics[0].message, "the provider refused the request (rename.bad): no");
    assert_eq!(m.provider_code.as_deref(), Some("rename.bad"));
}

#[test]
fn rename_edits_carry_the_document_identity_and_wright_ranges() {
    let edits = rename_edits(&document_set(), &clean_rename_result()).expect("edits");
    assert_eq!(edits.len(), 3);
    assert_eq!(edits[0].range, EditRange { start_line: 5, start_col: 5, end_line: 5, end_col: 11 });
    assert_eq!(edits[0].source, URI);
    assert_eq!(edits[0].source_identity, input_identity(CLEAN));
}

#[test]
fn document_sets_replace_a_document_of_the_same_uri() {
    let mut set = document_set();
    let mut newer = document("changed");
    newer.version = 9;
    set.insert(newer);
    assert_eq!(set.documents().len(), 1);
    assert_eq!(set.get(URI).unwrap().version, 9);
    assert!(set.get("file:///other").is_none());
}
