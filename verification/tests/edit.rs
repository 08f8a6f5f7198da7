use wright::config::{InputSpec, SessionConfig};
use wright::edit::{
    rename_occurrences, rename_symbol, validate_transaction, EditRange, EditTransaction, PathFacts,
    RenameRequest, SourceEdit, SourceTexts,
};
use wright::input_identity;

const SOURCE: &str = "globalvar score = 0\n\nrule \"r\":\n    @Event global\n    score += 1\n";

fn texts(pairs: &[(&str, &str)]) -> SourceTexts {
    let mut t = SourceTexts::new();
    for (k, v) in pairs {
        t.insert(k.to_string(), v.to_string());
    }
    t
}

fn no_disk() -> PathFacts {
    PathFacts {
        canonical: SourceTexts::new(),
        main_read: Err("No such file or directory (os error 2)".to_string()),
    }
}

fn program_config() -> SessionConfig {
    let mut config = SessionConfig::default();
    config.input = InputSpec::Path("program.opy".to_string());
    config
}

fn rename_edit(source: &str, from: &str, to: &str) -> SourceEdit {
    rename_symbol(
        source,
        &RenameRequest {
            symbol_kind: "globalVariable".to_string(),
            from: from.to_string(),
            to: to.to_string(),
            source: "program.opy".to_string(),
            source_identity: input_identity(source),
        },
    )
    .unwrap()
}

#[test]
fn rename_rewrites_declaration_and_references() {
    let edit = rename_edit(SOURCE, "score", "total");
    assert_eq!(edit.edit_kind, "rename");
    assert_eq!(edit.source, "program.opy", "the edit names its source file");
    assert!(edit.new_text.contains("globalvar total = 0"), "declaration renamed: {}", edit.new_text);
    assert!(edit.new_text.contains("total += 1"), "reference renamed: {}", edit.new_text);
}

#[test]
fn rename_does_not_touch_longer_identifiers() {
    let edit = rename_edit(SOURCE, "score", "total");
    assert!(!edit.new_text.contains("totalboard"));
}

#[test]
fn rename_unknown_symbol_fails_explicitly() {
    let error = rename_symbol(
        SOURCE,
        &RenameRequest {
            symbol_kind: "globalVariable".to_string(),
            from: "missing".to_string(),
            to: "x".to_string(),
            source: "program.opy".to_string(),
            source_identity: input_identity(SOURCE),
        },
    )
    .unwrap_err();
    assert_eq!(error.code, "unknown-symbol");
}

#[test]
fn stale_source_identity_is_rejected() {
    let edit = SourceEdit {
        edit_kind: "rename".to_string(),
        source: "program.opy".to_string(),
        source_identity: "wrong-identity".to_string(),
        range: EditRange { start_line: 1, start_col: 1, end_line: 1, end_col: 1 },
        new_text: String::new(),
    };
    let sources = texts(&[("program.opy", SOURCE)]);
    let validation = validate_transaction(
        &SessionConfig::default(),
        &sources,
        &EditTransaction::new(vec![edit]).unwrap(),
        &no_disk(),
    );
    assert!(!validation.ok);
    assert_eq!(validation.diagnostics[0].code, "edit-stale-source");
}

#[test]
fn stale_source_identity_is_rejected_before_any_validation() {
    let edit = SourceEdit {
        edit_kind: "rename".to_string(),
        source: "other.opy".to_string(),
        source_identity: input_identity(SOURCE),
        range: EditRange { start_line: 1, start_col: 1, end_line: 1, end_col: 1 },
        new_text: String::new(),
    };
    let validation = validate_transaction(
        &SessionConfig::default(),
        &SourceTexts::new(),
        &EditTransaction::new(vec![edit]).unwrap(),
        &no_disk(),
    );
    assert!(!validation.ok);
    assert_eq!(validation.diagnostics[0].code, "edit-unknown-source");
    assert!(validation.preview.is_none(), "no partial preview");
}

#[test]
fn overlapping_edits_in_one_source_are_rejected() {
    let source = "globalvar score = 0\n";
    let edit = |start: u32, end: u32| SourceEdit {
        edit_kind: "rename".to_string(),
        source: "program.opy".to_string(),
        source_identity: input_identity(source),
        range: EditRange { start_line: 1, start_col: start, end_line: 1, end_col: end },
        new_text: "x".to_string(),
    };
    let error = EditTransaction::new(vec![edit(1, 10), edit(5, 20)]).unwrap_err();
    assert_eq!(error.code, "edit-overlap");
}

#[test]
fn rename_occurrences_works_without_a_declaration() {
    let source = "rule \"r\":\n    @Event global\n    showStatus()\n";
    let edit = rename_occurrences(
        source,
        "showStatus",
        "refresh",
        "program.opy",
        &input_identity(source),
    )
    .unwrap();
    assert!(edit.new_text.contains("refresh()"), "reference renamed: {}", edit.new_text);
    assert!(!edit.new_text.contains("showStatus"), "old name gone: {}", edit.new_text);
    assert_eq!(
        edit.source_identity,
        input_identity(source),
        "the edit carries the source identity precondition"
    );
}

#[test]
fn rename_validation_refuses_without_provider() {
    let sources = texts(&[("program.opy", SOURCE)]);
    let transaction = EditTransaction::new(vec![rename_edit(SOURCE, "score", "total")]).unwrap();
    let validation = validate_transaction(&program_config(), &sources, &transaction, &no_disk());
    assert!(!validation.ok);
    assert_eq!(validation.diagnostics[0].code, "source-provider-unavailable");
    assert!(validation.preview.is_none(), "no partial preview");
}

#[test]
fn broken_rename_is_refused_with_no_partial_preview() {
    let source = "globalvar score = 0\n\nrule \"r\":\n    @Event global\n    score += 1\n    missing(;\n";
    let edit = rename_edit(source, "score", "total");
    let sources = texts(&[("program.opy", source)]);
    let validation = validate_transaction(
        &program_config(),
        &sources,
        &EditTransaction::new(vec![edit]).unwrap(),
        &no_disk(),
    );
    assert!(!validation.ok, "a rename that breaks the source refuses");
    assert_eq!(validation.diagnostics[0].code, "source-provider-unavailable");
    assert!(validation.preview.is_none(), "no partial preview");
}

#[test]
fn empty_transaction_is_rejected() {
    let error = EditTransaction::new(Vec::new()).unwrap_err();
    assert_eq!(error.code, "edit-empty-transaction");
}

#[test]
fn transaction_orders_edits_deterministically() {
    let source = "rule \"r\":\n    a\n    b\n";
    let edit = |line: u32| SourceEdit {
        edit_kind: "rename".to_string(),
        source: "program.opy".to_string(),
        source_identity: input_identity(source),
        range: EditRange { start_line: line, start_col: 1, end_line: line, end_col: 2 },
        new_text: "x".to_string(),
    };
    let transaction = EditTransaction::new(vec![edit(3), edit(2)]).unwrap();
    let positions: Vec<u32> = transaction.edits.iter().map(|edit| edit.range.start_line).collect();
    assert_eq!(positions, vec![2, 3], "edits are ordered by position");
}

fn program_edit(source: &str, range: EditRange) -> SourceEdit {
    SourceEdit {
        edit_kind: "rename".to_string(),
        source: "program.opy".to_string(),
        source_identity: input_identity(source),
        range,
        new_text: "total".to_string(),
    }
}

#[test]
fn transaction_rejects_invalid_ranges_before_provider_validation() {
    let source = "globalvar score = 0\n";
    let transaction = EditTransaction::new(vec![program_edit(
        source,
        EditRange { start_line: 1, start_col: 0, end_line: 1, end_col: 2 },
    )]);
    let transaction = transaction.expect("range validity is checked during application");
    let sources = texts(&[("program.opy", source)]);
    let error = transaction.apply(&sources).unwrap_err();
    assert_eq!(error.code, "edit-invalid-range");
}

#[test]
fn opy_validation_refuses_without_a_provider_capability() {
    let source = "globalvar score = 0\n";
    let transaction = EditTransaction::new(vec![program_edit(
        source,
        EditRange { start_line: 1, start_col: 1, end_line: 1, end_col: 6 },
    )])
    .expect("transaction is structurally valid");
    let sources = texts(&[("program.opy", source)]);
    let result = validate_transaction(&program_config(), &sources, &transaction, &no_disk());
    assert!(!result.ok);
    assert_eq!(result.diagnostics[0].code, "source-provider-unavailable");
    assert!(result.preview.is_none());
}

#[test]
fn empty_transaction_is_rejected_without_source_access() {
    let error = EditTransaction::new(Vec::new()).unwrap_err();
    assert_eq!(error.code, "edit-empty-transaction");
}

#[test]
fn rename_leaves_identifiers_that_contain_the_name() {
    let src = "scorescore score_score xscore score\n";
    let edit = rename_occurrences(src, "score", "total", "main.opy", "id").unwrap();
    assert_eq!(edit.new_text, "scorescore score_score xscore total\n");
}
