//! Structured diagnostics: the primary error type of the driver.

use vstd::prelude::*;

use crate::hir::{SourceFile, Span};
use crate::provider::Status;
use crate::text::{copy_string, decimal, decimal_string, owned};

verus! {

#[derive(Debug, Clone, Copy, PartialEq, Eq, Structural)]
pub enum Severity {
    Error,
    Warning,
    Info,
}

/// The pipeline stage a diagnostic arose in.
#[derive(Debug, Clone, Copy, PartialEq, Eq, Structural)]
pub enum Stage {
    Discovery,
    Frontend,
    Lowering,
    Validation,
    Emission,
    Analysis,
    Reconstruction,
    Internal,
}

/// The canonical spelling of a stage.
pub open spec fn stage_name(s: Stage) -> Seq<char> {
    match s {
        Stage::Discovery => "discovery"@,
        Stage::Frontend => "frontend"@,
        Stage::Lowering => "lowering"@,
        Stage::Validation => "validation"@,
        Stage::Emission => "emission"@,
        Stage::Analysis => "analysis"@,
        Stage::Reconstruction => "reconstruction"@,
        Stage::Internal => "internal"@,
    }
}

impl Stage {
    pub fn as_str(self) -> (r: &'static str)
        ensures
            r@ == stage_name(self),
    {
        match self {
            Stage::Discovery => "discovery",
            Stage::Frontend => "frontend",
            Stage::Lowering => "lowering",
            Stage::Validation => "validation",
            Stage::Emission => "emission",
            Stage::Analysis => "analysis",
            Stage::Reconstruction => "reconstruction",
            Stage::Internal => "internal",
        }
    }
}

/// A 1-based line/column position.
#[derive(Debug, Clone, Copy, PartialEq, Eq, Structural)]
pub struct Position {
    pub line: u32,
    pub col: u32,
}

/// A span in a registered source file.
#[derive(Debug, Clone, PartialEq, Eq)]
pub struct SourceSpan {
    pub file: usize,
    pub path: String,
    pub start: Position,
    pub end: Position,
}

/// The path a diagnostic names for file `file` of a registry: the file's
/// path, or `<file N>` when the registry has no such file.
pub open spec fn registry_path(files: Seq<SourceFile>, file: usize) -> Seq<char> {
    if file < files.len() {
        files[file as int].path@
    } else {
        "<file "@ + decimal(file as nat) + ">"@
    }
}

/// The diagnostic span of an IR span over a file registry: its file index,
/// that file's path and its positions; nothing without a span.
pub fn span_from_ir(span: Option<Span>, files: &[SourceFile]) -> (r: Option<SourceSpan>)
    ensures
        match span {
            None => r is None,
            Some(s) => r matches Some(d) && d.file == s.file && d.path@ == registry_path(
                files@,
                s.file,
            ) && d.start == (Position { line: s.start.line, col: s.start.col }) && d.end == (
            Position { line: s.end.line, col: s.end.col }),
        },
{
    match span {
        None => None,
        Some(s) => {
            let path = if s.file < files.len() {
                copy_string(&files[s.file].path)
            } else {
                let mut p = owned("<file ");
                p.append(decimal_string(s.file as u64).as_str());
                p.append(">");
                p
            };
            Some(
                SourceSpan {
                    file: s.file,
                    path,
                    start: Position { line: s.start.line, col: s.start.col },
                    end: Position { line: s.end.line, col: s.end.col },
                },
            )
        },
    }
}

/// The source form a diagnostic is about.
#[derive(Debug, Clone, PartialEq, Eq)]
pub struct Origin {
    pub kind: String,
    pub locale: Option<String>,
}

#[derive(Debug, Clone, PartialEq)]
pub struct Diagnostic {
    pub code: String,
    pub stage: Stage,
    pub severity: Severity,
    pub message: String,
    pub status: Option<Status>,
    pub span: Option<SourceSpan>,
    pub source: Option<Origin>,
}

/// A diagnostic carrying only a code, stage, severity and message.
pub open spec fn plain_diagnostic(
    d: Diagnostic,
    code: Seq<char>,
    stage: Stage,
    severity: Severity,
    message: Seq<char>,
) -> bool {
    &&& d.code@ == code
    &&& d.stage == stage
    &&& d.severity == severity
    &&& d.message@ == message
    &&& d.status is None
    &&& d.span is None
    &&& d.source is None
}

impl Diagnostic {
    pub fn error(code: &str, stage: Stage, message: &str) -> (d: Diagnostic)
        ensures
            plain_diagnostic(d, code@, stage, Severity::Error, message@),
    {
        Diagnostic {
            code: owned(code),
            stage,
            severity: Severity::Error,
            message: owned(message),
            status: None,
            span: None,
            source: None,
        }
    }

    pub fn warning(code: &str, stage: Stage, message: &str) -> (d: Diagnostic)
        ensures
            plain_diagnostic(d, code@, stage, Severity::Warning, message@),
    {
        Diagnostic {
            code: owned(code),
            stage,
            severity: Severity::Warning,
            message: owned(message),
            status: None,
            span: None,
            source: None,
        }
    }
}

/// A field-by-field copy of an origin.
pub fn copy_origin(o: &Origin) -> (r: Origin)
    ensures
        r == *o,
{
    Origin {
        kind: o.kind.clone(),
        locale: match &o.locale {
            Some(l) => Some(l.clone()),
            None => None,
        },
    }
}

/// A field-by-field copy of a span.
pub fn copy_span(s: &SourceSpan) -> (r: SourceSpan)
    ensures
        r == *s,
{
    SourceSpan { file: s.file, path: s.path.clone(), start: s.start, end: s.end }
}

/// A field-by-field copy of a diagnostic.
pub fn copy_diagnostic(d: &Diagnostic) -> (r: Diagnostic)
    ensures
        r == *d,
{
    Diagnostic {
        code: d.code.clone(),
        stage: d.stage,
        severity: d.severity,
        message: d.message.clone(),
        status: d.status,
        span: match &d.span {
            Some(s) => Some(copy_span(s)),
            None => None,
        },
        source: match &d.source {
            Some(o) => Some(copy_origin(o)),
            None => None,
        },
    }
}

} // verus!
