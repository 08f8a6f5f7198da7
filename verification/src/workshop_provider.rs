//! Wright's in-process provider for localized raw Workshop source: the
//! catalog, locale detection, parsing and residual inspection come from
//! `workshop-rs`; this module turns each residual the catalog cannot fully
//! explain into a structured diagnostic that fails closed.

use vstd::prelude::*;

use crate::diag::{Diagnostic, Position, Severity, SourceSpan, Stage};
use crate::provider::Status;
use crate::text::{chars_of, owned, string_from_chars};

verus! {

broadcast use vstd::string::group_string_axioms;

#[verifier::external_type_specification]
#[verifier::external_body]
pub struct ExCatalog(workshop_rs::catalog::Catalog);

#[verifier::external_type_specification]
#[verifier::external_body]
pub struct ExSemanticIssue(workshop_rs::rules::SemanticIssue);

/// A failure of the Workshop provider itself (catalog, locale, parse or
/// validation), as opposed to a diagnostic about the source.
#[derive(Debug, Clone, PartialEq, Eq)]
pub struct ProviderError {
    pub code: String,
    pub message: String,
}

impl ProviderError {
    pub fn new(code: &str, message: &str) -> (e: ProviderError)
        ensures
            e.code@ == code@,
            e.message@ == message@,
    {
        ProviderError { code: owned(code), message: owned(message) }
    }

    /// The error as it displays: `code: message`.
    pub fn to_string(&self) -> (r: String)
        ensures
            r@ == self.code@ + ": "@ + self.message@,
    {
        let mut r = self.code.clone();
        r.append(": ");
        r.append(self.message.as_str());
        r
    }
}

/// Why a construct is incomplete.
#[derive(Debug, Clone, Copy, PartialEq, Eq, Structural)]
pub enum IncompletenessKind {
    RawSetting,
    UnknownAction,
    UnknownValue,
    OpaqueAction,
}

/// What a residual construct most likely is.
#[derive(Debug, Clone, Copy, PartialEq, Eq, Structural)]
pub enum ResidualClassification {
    ProjectDefinedConstruct,
    SourceDeclaredVariable,
    ProducerExtension,
    LegacyOpaque,
    UnresolvedIdentifier,
    CatalogSpellingNearMiss,
}

pub open spec fn classification_name(c: ResidualClassification) -> Seq<char> {
    match c {
        ResidualClassification::ProjectDefinedConstruct => "project-defined-construct"@,
        ResidualClassification::SourceDeclaredVariable => "source-declared-variable"@,
        ResidualClassification::ProducerExtension => "producer-extension"@,
        ResidualClassification::LegacyOpaque => "legacy-opaque-construct"@,
        ResidualClassification::UnresolvedIdentifier => "truly-unresolved-identifier"@,
        ResidualClassification::CatalogSpellingNearMiss => "catalog-spelling-near-miss"@,
    }
}

impl ResidualClassification {
    /// The classification's canonical spelling.
    pub fn as_str(self) -> (r: &'static str)
        ensures
            r@ == classification_name(self),
    {
        match self {
            ResidualClassification::ProjectDefinedConstruct => "project-defined-construct",
            ResidualClassification::SourceDeclaredVariable => "source-declared-variable",
            ResidualClassification::ProducerExtension => "producer-extension",
            ResidualClassification::LegacyOpaque => "legacy-opaque-construct",
            ResidualClassification::UnresolvedIdentifier => "truly-unresolved-identifier",
            ResidualClassification::CatalogSpellingNearMiss => "catalog-spelling-near-miss",
        }
    }
}

/// The 1-based source range of a residual.
#[derive(Debug, Clone, Copy, PartialEq, Eq, Structural)]
pub struct IssueSpan {
    pub start: Position,
    pub end: Position,
}

/// A construct the canonical catalog preserves without fully understanding.
#[derive(Debug, Clone, PartialEq, Eq)]
pub struct WorkshopIssue {
    pub kind: IncompletenessKind,
    pub name: String,
    pub span: Option<IssueSpan>,
    pub classification: ResidualClassification,
}

pub open spec fn kind_code(k: IncompletenessKind) -> Seq<char> {
    match k {
        IncompletenessKind::RawSetting => "raw-setting"@,
        IncompletenessKind::UnknownAction => "unknown-action"@,
        IncompletenessKind::UnknownValue => "unknown-value"@,
        IncompletenessKind::OpaqueAction => "opaque-action"@,
    }
}

/// Raw settings only warn; unknown or opaque logic is an error.
pub open spec fn kind_severity(k: IncompletenessKind) -> Severity {
    match k {
        IncompletenessKind::RawSetting => Severity::Warning,
        _ => Severity::Error,
    }
}

/// Project-defined constructs and source-declared variables are partially
/// supported; every other residual is unsupported.
pub open spec fn status_of(c: ResidualClassification) -> Status {
    match c {
        ResidualClassification::ProjectDefinedConstruct => Status::Partial,
        ResidualClassification::SourceDeclaredVariable => Status::Partial,
        _ => Status::Unsupported,
    }
}

pub open spec fn status_name_of(s: Status) -> Seq<char> {
    match s {
        Status::Supported => "supported"@,
        Status::Partial => "partially supported"@,
        Status::Unsupported => "unsupported"@,
    }
}

pub open spec fn is_ascii_alphanumeric(c: char) -> bool {
    ('0' <= c && c <= '9') || ('a' <= c && c <= 'z') || ('A' <= c && c <= 'Z')
}

/// An identity character as it stands in a diagnostic code: ASCII letters
/// and digits in lower case, anything else as `-`.
pub open spec fn code_char(c: char) -> char {
    if 'A' <= c && c <= 'Z' {
        ((c as int) + 32) as char
    } else if is_ascii_alphanumeric(c) {
        c
    } else {
        '-'
    }
}

pub open spec fn diagnostic_code_of(kind: Seq<char>, identity: Seq<char>) -> Seq<char> {
    "workshop."@ + kind + "."@ + identity.map_values(|c: char| code_char(c))
}

pub open spec fn issue_message(issue: WorkshopIssue) -> Seq<char> {
    "Workshop construct '"@ + issue.name@ + "' is "@ + status_name_of(
        status_of(issue.classification),
    ) + " ("@ + classification_name(issue.classification) + ")"@
}

/// The span a residual is reported at: its own, else line 1, column 1.
pub open spec fn issue_range(span: Option<IssueSpan>) -> IssueSpan {
    match span {
        Some(s) => s,
        None => IssueSpan { start: Position { line: 1, col: 1 }, end: Position { line: 1, col: 1 } },
    }
}

/// `d` is the diagnostic for `issue` found in the file at `path`.
pub open spec fn issue_diagnostic(issue: WorkshopIssue, path: Seq<char>, d: Diagnostic) -> bool {
    &&& d.code@ == diagnostic_code_of(kind_code(issue.kind), issue.name@)
    &&& d.stage == Stage::Analysis
    &&& d.severity == kind_severity(issue.kind)
    &&& d.message@ == issue_message(issue)
    &&& d.status == Some(status_of(issue.classification))
    &&& d.span matches Some(s) && s.file == 0 && s.path@ == path && s.start == issue_range(
        issue.span,
    ).start && s.end == issue_range(issue.span).end
    &&& d.source is None
}

/// `ds` holds, in order, the diagnostic of each of `issues`.
pub open spec fn issues_diagnostics(
    issues: Seq<WorkshopIssue>,
    path: Seq<char>,
    ds: Seq<Diagnostic>,
) -> bool {
    &&& ds.len() == issues.len()
    &&& forall|i: int| 0 <= i < issues.len() ==> issue_diagnostic(issues[i], path, #[trigger] ds[i])
}

/// The support status a residual classification grants.
pub fn status_for_classification(classification: ResidualClassification) -> (s: Status)
    ensures
        s == status_of(classification),
{
    match classification {
        ResidualClassification::ProjectDefinedConstruct => Status::Partial,
        ResidualClassification::SourceDeclaredVariable => Status::Partial,
        _ => Status::Unsupported,
    }
}

fn status_name(status: Status) -> (r: &'static str)
    ensures
        r@ == status_name_of(status),
{
    match status {
        Status::Supported => "supported",
        Status::Partial => "partially supported",
        Status::Unsupported => "unsupported",
    }
}

/// The diagnostic code of a residual: `workshop.<kind>.<identity>`, the
/// identity lower-cased with every non-alphanumeric character as `-`.
pub fn diagnostic_code(kind: &str, identity: &str) -> (r: String)
    ensures
        r@ == diagnostic_code_of(kind@, identity@),
{
    let chars = chars_of(identity);
    let mut mapped: Vec<char> = Vec::new();
    let mut k: usize = 0;
    while k < chars.len()
        invariant
            k <= chars@.len(),
            chars@ == identity@,
            mapped@ == chars@.take(k as int).map_values(|c: char| code_char(c)),
        decreases chars@.len() - k,
    {
        let c = chars[k];
        let m = if 'A' <= c && c <= 'Z' {
            ((c as u32) + 32) as u8 as char
        } else if ('0' <= c && c <= '9') || ('a' <= c && c <= 'z') {
            c
        } else {
            '-'
        };
        proof {
            if 'A' <= c && c <= 'Z' {
                assert(((c as u32) + 32) as u8 as char == ((c as int) + 32) as char);
            }
        }
        mapped.push(m);
        assert(chars@.take(k + 1).map_values(|c: char| code_char(c)) =~= chars@.take(
            k as int,
        ).map_values(|c: char| code_char(c)).push(m));
        k = k + 1;
    }
    assert(chars@.take(k as int) =~= chars@);
    let mut r = owned("workshop.");
    r.append(kind);
    r.append(".");
    let tail = string_from_chars(mapped.as_slice());
    r.append(tail.as_str());
    r
}

/// The diagnostic for one residual found in the file at `path`.
pub fn map_issue(issue: &WorkshopIssue, path: &str) -> (d: Diagnostic)
    ensures
        issue_diagnostic(*issue, path@, d),
{
    let (kind_code, severity) = match issue.kind {
        IncompletenessKind::RawSetting => ("raw-setting", Severity::Warning),
        IncompletenessKind::UnknownAction => ("unknown-action", Severity::Error),
        IncompletenessKind::UnknownValue => ("unknown-value", Severity::Error),
        IncompletenessKind::OpaqueAction => ("opaque-action", Severity::Error),
    };
    let code = diagnostic_code(kind_code, issue.name.as_str());
    let status = status_for_classification(issue.classification);
    let mut message = owned("Workshop construct '");
    message.append(issue.name.as_str());
    message.append("' is ");
    message.append(status_name(status));
    message.append(" (");
    message.append(issue.classification.as_str());
    message.append(")");
    let range = match issue.span {
        Some(s) => s,
        None => IssueSpan { start: Position { line: 1, col: 1 }, end: Position { line: 1, col: 1 } },
    };
    Diagnostic {
        code,
        stage: Stage::Analysis,
        severity,
        message,
        status: Some(status),
        span: Some(SourceSpan { file: 0, path: owned(path), start: range.start, end: range.end }),
        source: None,
    }
}

/// The diagnostics of a list of residuals, in order.
pub fn diagnostics_for(issues: &[WorkshopIssue], path: &str) -> (ds: Vec<Diagnostic>)
    ensures
        issues_diagnostics(issues@, path@, ds@),
{
    let mut ds: Vec<Diagnostic> = Vec::new();
    let mut k: usize = 0;
    while k < issues.len()
        invariant
            k <= issues@.len(),
            ds@.len() == k,
            forall|i: int| 0 <= i < k ==> issue_diagnostic(issues@[i], path@, #[trigger] ds@[i]),
        decreases issues@.len() - k,
    {
        let d = map_issue(&issues[k], path);
        ds.push(d);
        k = k + 1;
    }
    ds
}

// ---------------------------------------------------------------------------
// The calls into workshop-rs.
// ---------------------------------------------------------------------------

/// `Catalog::builtin`: the canonical built-in catalog, or its load error as
/// text. Nothing is stated of the catalog, which Verus cannot look into.
#[verifier::external_body]
fn builtin_catalog() -> (r: Result<workshop_rs::catalog::Catalog, String>) {
    match workshop_rs::catalog::Catalog::builtin() {
        Ok(catalog) => Ok(catalog),
        Err(error) => Err(error.to_string()),
    }
}

/// The step of a Workshop check that failed.
#[derive(Debug, Clone, Copy, PartialEq, Eq, Structural)]
pub enum WorkshopStep {
    Catalog,
    Locale,
    Parse,
    Validate,
}

/// The outcome of checking a Workshop source against the built-in catalog:
/// its residuals, or the step that failed and that step's error text.
pub uninterp spec fn workshop_check_of(source: Seq<char>) -> Result<
    Seq<WorkshopIssue>,
    (WorkshopStep, Seq<char>),
>;

/// Checks a Workshop source with workshop-rs against `Catalog::builtin`:
/// `detect::resolve_locale` (no override), `parser::parse_with_context`
/// (the catalog as the expected-domain context), `Program::validate` and
/// `Program::semantic_issues`, each error as its text. The intermediate
/// locale and program are opaque and the catalog is a constant, so the
/// outcome is named as a whole, as a function of the source. Whether the
/// parser can panic on some text is not stated: its source shows `unwrap`
/// and `expect` only on invariants the parser establishes itself.
#[verifier::external_body]
fn workshop_check(source: &str) -> (r: Result<Vec<WorkshopIssue>, (WorkshopStep, String)>)
    ensures
        match r {
            Ok(v) => workshop_check_of(source@) == Ok::<Seq<WorkshopIssue>, (WorkshopStep, Seq<char>)>(v@),
            Err(f) => workshop_check_of(source@) == Err::<Seq<WorkshopIssue>, (WorkshopStep, Seq<char>)>((f.0, f.1@)),
        },
{
    let catalog = workshop_rs::catalog::Catalog::builtin().map_err(|e| (WorkshopStep::Catalog, e.to_string()))?;
    let locale = workshop_rs::detect::resolve_locale(source, &catalog, None)
        .map_err(|e| (WorkshopStep::Locale, e.to_string()))?;
    let program = workshop_rs::parser::parse_with_context(source, &catalog, &locale, &catalog)
        .map_err(|e| (WorkshopStep::Parse, e.to_string()))?;
    program.validate().map_err(|e| (WorkshopStep::Validate, e.to_string()))?;
    Ok(program.semantic_issues(&catalog).iter().map(issue_of).collect())
}

/// A residual as plain values, field by field.
fn issue_of(issue: &workshop_rs::rules::SemanticIssue) -> (r: WorkshopIssue) {
    WorkshopIssue {
        kind: issue_kind(issue),
        name: issue_name(issue),
        span: issue_span(issue),
        classification: issue_classification(issue),
    }
}

/// The `kind` field of a residual, variant for variant.
#[verifier::external_body]
fn issue_kind(issue: &workshop_rs::rules::SemanticIssue) -> (r: IncompletenessKind) {
    match issue.kind {
        workshop_rs::rules::IncompletenessKind::RawSetting => IncompletenessKind::RawSetting,
        workshop_rs::rules::IncompletenessKind::UnknownAction => IncompletenessKind::UnknownAction,
        workshop_rs::rules::IncompletenessKind::UnknownValue => IncompletenessKind::UnknownValue,
        workshop_rs::rules::IncompletenessKind::OpaqueAction => IncompletenessKind::OpaqueAction,
    }
}

/// The `classification` field of a residual, variant for variant.
#[verifier::external_body]
fn issue_classification(issue: &workshop_rs::rules::SemanticIssue) -> (r: ResidualClassification) {
    match issue.classification {
        workshop_rs::rules::ResidualClassification::ProjectDefinedConstruct => ResidualClassification::ProjectDefinedConstruct,
        workshop_rs::rules::ResidualClassification::SourceDeclaredVariable => ResidualClassification::SourceDeclaredVariable,
        workshop_rs::rules::ResidualClassification::ProducerExtension => ResidualClassification::ProducerExtension,
        workshop_rs::rules::ResidualClassification::LegacyOpaque => ResidualClassification::LegacyOpaque,
        workshop_rs::rules::ResidualClassification::UnresolvedIdentifier => ResidualClassification::UnresolvedIdentifier,
        workshop_rs::rules::ResidualClassification::CatalogSpellingNearMiss => ResidualClassification::CatalogSpellingNearMiss,
    }
}

/// The `name` field of a residual.
#[verifier::external_body]
fn issue_name(issue: &workshop_rs::rules::SemanticIssue) -> (r: String) {
    issue.name.clone()
}

/// The `span` field of a residual, as start and end line/column.
#[verifier::external_body]
fn issue_span(issue: &workshop_rs::rules::SemanticIssue) -> (r: Option<IssueSpan>) {
    match issue.span {
        Some(s) => Some(IssueSpan {
            start: Position { line: s.start.line, col: s.start.col },
            end: Position { line: s.end.line, col: s.end.col },
        }),
        None => None,
    }
}

/// Wright's in-process provider for localized raw Workshop source.
pub struct WorkshopProvider {
    catalog: workshop_rs::catalog::Catalog,
}

/// The error code of a failed step.
pub open spec fn step_code(step: WorkshopStep) -> Seq<char> {
    match step {
        WorkshopStep::Catalog => "workshop.catalog"@,
        WorkshopStep::Locale => "workshop.locale"@,
        WorkshopStep::Parse => "workshop.parse"@,
        WorkshopStep::Validate => "workshop.validate"@,
    }
}

impl WorkshopProvider {
    /// A provider over the canonical built-in catalog.
    pub fn new() -> (r: Result<WorkshopProvider, ProviderError>)
        ensures
            r matches Err(e) ==> e.code@ == "workshop.catalog"@,
    {
        match builtin_catalog() {
            Ok(catalog) => Ok(WorkshopProvider { catalog }),
            Err(message) => Err(ProviderError::new("workshop.catalog", message.as_str())),
        }
    }

    /// Checks one Workshop source: its locale is detected, it is parsed and
    /// validated (a failure is a provider error carrying the step's code and
    /// the error's text), and every residual the catalog does not fully
    /// explain becomes a diagnostic at `path`, in the order workshop-rs
    /// reports them.
    pub fn check(&self, source: &str, path: &str) -> (r: Result<Vec<Diagnostic>, ProviderError>)
        ensures
            match workshop_check_of(source@) {
                Ok(issues) => r matches Ok(ds) && issues_diagnostics(issues, path@, ds@),
                Err(f) => r matches Err(e) && e.code@ == step_code(f.0) && e.message@ == f.1,
            },
    {
        match workshop_check(source) {
            Ok(issues) => Ok(diagnostics_for(issues.as_slice(), path)),
            Err((step, m)) => {
                let code = match step {
                    WorkshopStep::Catalog => "workshop.catalog",
                    WorkshopStep::Locale => "workshop.locale",
                    WorkshopStep::Parse => "workshop.parse",
                    WorkshopStep::Validate => "workshop.validate",
                };
                Err(ProviderError::new(code, m.as_str()))
            },
        }
    }
}

} // verus!
