//! The shapes a language provider exchanges with Wright: documents in
//! provider coordinates (0-based lines, UTF-16 offsets), proposed edits,
//! verdicts, diagnostics, compiled artifacts and failures.

use vstd::prelude::*;

use crate::document::Range;
use crate::source_provider::SourceTargetKind;

verus! {

/// One document as a provider sees it.
#[derive(Debug, Clone)]
pub struct LppDocument {
    pub uri: String,
    pub language_id: String,
    pub version: i32,
    pub text: String,
}

/// One provider edit: a range in provider coordinates and its replacement.
#[derive(Debug, Clone)]
pub struct LppTextEdit {
    pub range: Range,
    pub new_text: String,
}

/// The edits a provider proposes for one document, with the document version
/// they were computed against.
#[derive(Debug, Clone)]
pub struct DocumentEdits {
    pub document_uri: String,
    pub version: i32,
    pub text_edits: Vec<LppTextEdit>,
}

/// A provider's rename answer.
#[derive(Debug, Clone)]
pub struct RenameResult {
    pub edits: Vec<DocumentEdits>,
}

/// A provider's verdict on a document's proposed edits.
#[derive(Debug, Clone)]
pub struct ValidateEditsResult {
    pub valid: bool,
    pub version: i32,
    pub reason: Option<String>,
    pub failing_edit_index: Option<u64>,
}

/// The severity of a provider diagnostic.
#[derive(Debug, Clone, Copy, PartialEq, Eq, Structural)]
pub enum LppSeverity {
    Error,
    Warning,
    Information,
    Hint,
}

/// A provider diagnostic.
#[derive(Debug, Clone)]
pub struct LppDiagnostic {
    pub range: Range,
    pub severity: LppSeverity,
    pub code: Option<String>,
    pub message: String,
}

/// The provider diagnostics of one document.
#[derive(Debug, Clone)]
pub struct DocumentDiagnostics {
    pub uri: String,
    pub diagnostics: Vec<LppDiagnostic>,
}

/// A provider's project check.
#[derive(Debug, Clone)]
pub struct CheckResult {
    pub documents: Vec<DocumentDiagnostics>,
}

/// A failed provider request: the error's code, the refusal code a refusal
/// carries, and the error as it displays.
#[derive(Debug, Clone)]
pub struct ProviderFailure {
    pub code: String,
    pub refusal_code: Option<String>,
    pub message: String,
}

/// A compiled Workshop artifact: its format tag and content.
#[derive(Debug, Clone)]
pub struct LppArtifact {
    pub format: String,
    pub content: String,
}

/// The entry of a provider project: its URI, language, version and whether
/// it names a file or a directory.
#[derive(Debug, Clone, PartialEq, Eq)]
pub struct ProjectEntry {
    pub uri: String,
    pub language_id: String,
    pub version: i32,
    pub kind: SourceTargetKind,
}

} // verus!
