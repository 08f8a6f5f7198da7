//! Loading a provider's canonical Workshop artifact: the artifact is parsed
//! by workshop-rs, its source map is applied when the provider sent one (a
//! map that does not fit the artifact leaves the program unmapped, with a
//! warning), and the program is validated. A Workshop error becomes a
//! diagnostic that points into the authored sources when the map was
//! applied, and into the provider artifact otherwise.

use vstd::prelude::*;

use crate::diag::{Diagnostic, Origin, Position, Severity, SourceSpan, Stage};
use crate::hir::Span;
use crate::session::Provenance;
use crate::source_provider::{provider_path, provider_uri_path};
use crate::text::owned;

verus! {

broadcast use vstd::string::group_string_axioms;

#[verifier::external_type_specification]
#[verifier::external_body]
pub struct ExProgram(workshop_rs::Program);

#[verifier::external_type_specification]
#[verifier::external_body]
pub struct ExWorkshopError(workshop_rs::WorkshopError);

/// Which Workshop error it is, as the session tells them apart.
#[derive(Debug, Clone, PartialEq, Eq)]
pub enum WorkshopFailureKind {
    Catalog,
    Unknown { kind: String },
    UnknownWithCandidates { kind: String },
    NotDetected { kind: String },
    MissingMapping,
    Malformed,
    Warning,
    Unsupported,
    /// A variant added to workshop-rs after these.
    Other,
}

/// A Workshop error: its kind, its text as workshop-rs displays it, and its
/// span in the Workshop text.
#[derive(Debug, Clone, PartialEq, Eq)]
pub struct WorkshopFailure {
    pub kind: WorkshopFailureKind,
    pub message: String,
    pub span: Option<Span>,
}

/// The diagnostic code of a Workshop error.
pub open spec fn failure_code(k: WorkshopFailureKind) -> Seq<char> {
    match k {
        WorkshopFailureKind::Catalog => "catalog-error"@,
        WorkshopFailureKind::Unknown { kind } => "unknown-"@ + kind@,
        WorkshopFailureKind::UnknownWithCandidates { kind } => "unknown-"@ + kind@,
        WorkshopFailureKind::MissingMapping => "missing-mapping"@,
        WorkshopFailureKind::Unsupported => "unsupported-construct"@,
        _ => "parse-error"@,
    }
}

/// The diagnostic of a Workshop error in the text `display` names: a
/// catalog error is an internal error with no place; any other is a
/// frontend error at its span (none for a missing mapping), from `origin`.
pub open spec fn workshop_diagnostic(d: Diagnostic, f: WorkshopFailure, display: Seq<char>, origin: Origin) -> bool {
    &&& d.code@ == failure_code(f.kind)
    &&& d.severity == Severity::Error
    &&& d.message@ == f.message@
    &&& d.status is None
    &&& if f.kind is Catalog {
        &&& d.stage == Stage::Internal
        &&& d.span is None
        &&& d.source is None
    } else {
        &&& d.stage == Stage::Frontend
        &&& d.source == Some(origin)
        &&& match (f.span, f.kind) {
            (Some(s), k) if !(k is MissingMapping) => d.span matches Some(ds) && ds.file == s.file
                && ds.path@ == display && ds.start == (Position { line: s.start.line, col: s.start.col })
                && ds.end == (Position { line: s.end.line, col: s.end.col }),
            _ => d.span is None,
        }
    }
}

fn copy_origin(o: &Origin) -> (r: Origin)
    ensures
        r == *o,
{
    Origin {
        kind: o.kind.clone(),
        locale: match &o.locale {
            Some(l) => Some(l.clone()),
            None => None,
        },
    }
}

/// The diagnostic of a Workshop error in the text `display` names.
pub fn workshop_diag(f: &WorkshopFailure, display: &str, origin: &Origin) -> (d: Diagnostic)
    ensures
        workshop_diagnostic(d, *f, display@, *origin),
{
    let code = match &f.kind {
        WorkshopFailureKind::Catalog => owned("catalog-error"),
        WorkshopFailureKind::Unknown { kind } => {
            let mut c = owned("unknown-");
            c.append(kind.as_str());
            c
        },
        WorkshopFailureKind::UnknownWithCandidates { kind } => {
            let mut c = owned("unknown-");
            c.append(kind.as_str());
            c
        },
        WorkshopFailureKind::MissingMapping => owned("missing-mapping"),
        WorkshopFailureKind::Unsupported => owned("unsupported-construct"),
        _ => owned("parse-error"),
    };
    if let WorkshopFailureKind::Catalog = f.kind {
        return Diagnostic {
            code,
            stage: Stage::Internal,
            severity: Severity::Error,
            message: f.message.clone(),
            status: None,
            span: None,
            source: None,
        };
    }
    let span = match (&f.kind, f.span) {
        (WorkshopFailureKind::MissingMapping, _) => None,
        (_, None) => None,
        (_, Some(s)) => Some(
            SourceSpan {
                file: s.file,
                path: owned(display),
                start: Position { line: s.start.line, col: s.start.col },
                end: Position { line: s.end.line, col: s.end.col },
            },
        ),
    };
    Diagnostic {
        code,
        stage: Stage::Frontend,
        severity: Severity::Error,
        message: f.message.clone(),
        status: None,
        span,
        source: Some(copy_origin(origin)),
    }
}

/// The source of a diagnostic about a provider artifact: kind
/// `provider-artifact`, in the locale of the input's origin.
pub open spec fn artifact_source(source: Option<Origin>, origin: Origin) -> bool {
    source matches Some(o) && o.kind@ == "provider-artifact"@ && o.locale == origin.locale
}

/// The diagnostic of a Workshop error in a provider artifact. Without an
/// applied source map its span names `<provider-artifact>`; with one, the
/// span's file is an entry of the map's file table and names that file (by
/// the path `paths` gives it), or the diagnostic has no span when the file
/// is not in the table. A diagnostic without a span comes from the
/// artifact, of kind `provider-artifact` in the input's locale.
pub open spec fn artifact_diagnostic_spec(
    d: Diagnostic,
    f: WorkshopFailure,
    display: Seq<char>,
    origin: Origin,
    paths: Seq<Seq<char>>,
) -> bool {
    exists|w: Diagnostic|
        #[trigger] workshop_diagnostic(w, f, display, origin) && {
            &&& d.code == w.code && d.stage == w.stage && d.severity == w.severity
            &&& d.message == w.message && d.status == w.status
            &&& if paths.len() == 0 {
                &&& match w.span {
                    None => d.span is None,
                    Some(ws) => d.span matches Some(ds) && ds.file == ws.file && ds.start == ws.start
                        && ds.end == ws.end && ds.path@ == "<provider-artifact>"@,
                }
                &&& artifact_source(d.source, origin)
            } else {
                &&& match w.span {
                    None => d.span is None,
                    Some(ws) => if ws.file < paths.len() {
                        d.span matches Some(ds) && ds.file == ws.file && ds.start == ws.start
                            && ds.end == ws.end && ds.path@ == paths[ws.file as int]
                    } else {
                        d.span is None
                    },
                }
                &&& if d.span is None {
                    artifact_source(d.source, origin)
                } else {
                    d.source == w.source
                }
            }
        }
}

/// The diagnostic of a Workshop error in a provider artifact; `paths` are
/// the names of the applied source map's files (none without one).
pub fn artifact_diagnostic(f: &WorkshopFailure, display: &str, origin: &Origin, paths: &Vec<String>) -> (d:
    Diagnostic)
    ensures
        artifact_diagnostic_spec(d, *f, display@, *origin, paths@.map_values(|p: String| p@)),
{
    let w = workshop_diag(f, display, origin);
    let ghost wv = w;
    let artifact = Origin {
        kind: owned("provider-artifact"),
        locale: match &origin.locale {
            Some(l) => Some(l.clone()),
            None => None,
        },
    };
    let Diagnostic { code, stage, severity, message, status, span, source } = w;
    let (span, source) = if paths.len() == 0 {
        let span = match span {
            None => None,
            Some(s) => Some(SourceSpan { path: owned("<provider-artifact>"), ..s }),
        };
        (span, Some(artifact))
    } else {
        let span = match span {
            None => None,
            Some(s) => {
                if s.file < paths.len() {
                    Some(SourceSpan { path: paths[s.file].clone(), ..s })
                } else {
                    None
                }
            },
        };
        let source = if span.is_none() {
            Some(artifact)
        } else {
            source
        };
        (span, source)
    };
    let d = Diagnostic { code, stage, severity, message, status, span, source };
    proof {
        assert(workshop_diagnostic(wv, *f, display@, *origin));
    }
    d
}


/// The variant of a workshop-rs `WorkshopError`, with the kind it names
/// where it names one, arm for arm.
#[verifier::external_body]
fn failure_kind(e: &workshop_rs::WorkshopError) -> (k: WorkshopFailureKind) {
    match e {
        workshop_rs::WorkshopError::Catalog(_) => WorkshopFailureKind::Catalog,
        workshop_rs::WorkshopError::Unknown { kind, .. } => WorkshopFailureKind::Unknown { kind: kind.to_string() },
        workshop_rs::WorkshopError::UnknownWithCandidates { kind, .. } => WorkshopFailureKind::UnknownWithCandidates { kind: kind.to_string() },
        workshop_rs::WorkshopError::NotDetected { kind, .. } => WorkshopFailureKind::NotDetected { kind: kind.to_string() },
        workshop_rs::WorkshopError::MissingMapping { .. } => WorkshopFailureKind::MissingMapping,
        workshop_rs::WorkshopError::Malformed { .. } => WorkshopFailureKind::Malformed,
        workshop_rs::WorkshopError::Warning { .. } => WorkshopFailureKind::Warning,
        workshop_rs::WorkshopError::Unsupported { .. } => WorkshopFailureKind::Unsupported,
        _ => WorkshopFailureKind::Other,
    }
}

/// The `Display` text of a workshop-rs error. Nothing is stated of it.
#[verifier::external_body]
fn failure_text(e: &workshop_rs::WorkshopError) -> (t: String) {
    e.to_string()
}

/// `WorkshopError::span`, position for position.
#[verifier::external_body]
fn failure_span(e: &workshop_rs::WorkshopError) -> (s: Option<Span>) {
    e.span().map(|s| Span {
        file: s.file.index(),
        start: crate::ir::Position { line: s.start.line, col: s.start.col },
        end: crate::ir::Position { line: s.end.line, col: s.end.col },
    })
}

/// A workshop-rs error as the session reads it.
fn failure_of(e: workshop_rs::WorkshopError) -> (f: WorkshopFailure) {
    WorkshopFailure { kind: failure_kind(&e), message: failure_text(&e), span: failure_span(&e) }
}

/// A Workshop error kind as plain values.
pub ghost enum FailureKindView {
    Catalog,
    Unknown(Seq<char>),
    UnknownWithCandidates(Seq<char>),
    NotDetected(Seq<char>),
    MissingMapping,
    Malformed,
    Warning,
    Unsupported,
    Other,
}

pub open spec fn kind_view(k: WorkshopFailureKind) -> FailureKindView {
    match k {
        WorkshopFailureKind::Catalog => FailureKindView::Catalog,
        WorkshopFailureKind::Unknown { kind } => FailureKindView::Unknown(kind@),
        WorkshopFailureKind::UnknownWithCandidates { kind } => FailureKindView::UnknownWithCandidates(kind@),
        WorkshopFailureKind::NotDetected { kind } => FailureKindView::NotDetected(kind@),
        WorkshopFailureKind::MissingMapping => FailureKindView::MissingMapping,
        WorkshopFailureKind::Malformed => FailureKindView::Malformed,
        WorkshopFailureKind::Warning => FailureKindView::Warning,
        WorkshopFailureKind::Unsupported => FailureKindView::Unsupported,
        WorkshopFailureKind::Other => FailureKindView::Other,
    }
}

/// A Workshop error as plain values: its kind, its text and its span.
pub open spec fn failure_view(f: WorkshopFailure) -> (FailureKindView, Seq<char>, Option<Span>) {
    (kind_view(f.kind), f.message@, f.span)
}

pub open spec fn files_view(fs: Seq<String>) -> Seq<Seq<char>> {
    fs.map_values(|f: String| f@)
}

pub open spec fn str_opt(o: Option<&str>) -> Option<Seq<char>> {
    match o {
        Some(s) => Some(s@),
        None => None,
    }
}

/// What a run of an artifact through workshop-rs gives, as plain values:
/// the parse error, or the outcome of applying the source map (its files,
/// or its error's text; none without a map) and the validation error, if
/// any.
pub open spec fn run_view(
    r: Result<(workshop_rs::Program, Option<Result<Vec<String>, String>>, Option<WorkshopFailure>), WorkshopFailure>,
) -> Result<
    (Option<Result<Seq<Seq<char>>, Seq<char>>>, Option<(FailureKindView, Seq<char>, Option<Span>)>),
    (FailureKindView, Seq<char>, Option<Span>),
> {
    match r {
        Err(f) => Err(failure_view(f)),
        Ok((_, applied, validated)) => Ok((
            match applied {
                None => None,
                Some(Ok(fs)) => Some(Ok(files_view(fs@))),
                Some(Err(e)) => Some(Err(e@)),
            },
            match validated {
                None => None,
                Some(f) => Some(failure_view(f)),
            },
        )),
    }
}

/// What workshop-rs makes of a provider artifact `text` in `locale` with
/// the mapped-text artifact `map`, as [`run_view`] reads it.
pub uninterp spec fn artifact_run_of(text: Seq<char>, locale: Seq<char>, map: Option<Seq<char>>) -> Result<
    (Option<Result<Seq<Seq<char>>, Seq<char>>>, Option<(FailureKindView, Seq<char>, Option<Span>)>),
    (FailureKindView, Seq<char>, Option<Span>),
>;

/// Runs an artifact through workshop-rs: `Catalog::builtin`,
/// `parser::parse_with_context` in `Locale::new(locale)` with the catalog
/// as the expected-domain context, then, with a mapped-text artifact,
/// `MappedText::from_json` and `SourceMap::apply` (the map's `files` on
/// success, the error's text otherwise), then `Program::validate`. The
/// catalog is a constant, so the outcome is named as a function of the
/// arguments. The intermediate program is opaque.
#[verifier::external_body]
fn run_artifact(text: &str, locale: &str, map: Option<&str>) -> (r: Result<
    (workshop_rs::Program, Option<Result<Vec<String>, String>>, Option<WorkshopFailure>),
    WorkshopFailure,
>)
    ensures
        run_view(r) == artifact_run_of(text@, locale@, str_opt(map)),
{
    let catalog = workshop_rs::catalog::Catalog::builtin().map_err(failure_of)?;
    let locale = workshop_rs::catalog::Locale::new(locale);
    let mut program = workshop_rs::parser::parse_with_context(text, &catalog, &locale, &catalog).map_err(failure_of)?;
    let applied = match map {
        None => None,
        Some(json) => Some(match workshop_rs::MappedText::from_json(json) {
            Ok(m) => m.map.apply(&mut program).map(|()| m.map.files().to_vec()).map_err(|e| e.to_string()),
            Err(e) => Err(e.to_string()),
        }),
    };
    let validated = program.validate().err().map(failure_of);
    Ok((program, applied, validated))
}

/// A loaded provider artifact.
pub struct ArtifactLoad {
    pub program: workshop_rs::Program,
    pub provenance: Provenance,
    /// The files the program's spans name: the source map's files as
    /// provider paths when it was applied, else the input's display name.
    pub source_files: Vec<String>,
    /// The warning of a source map that did not fit, if any.
    pub warnings: Vec<Diagnostic>,
}

/// Why a provider artifact did not load: the Workshop error, and the files
/// of the applied source map (none when no map was applied), which the
/// caller names (relative to the project root where it can) before
/// building the diagnostic with [`artifact_diagnostic`].
pub struct ArtifactFailure {
    pub failure: WorkshopFailure,
    pub mapped_files: Vec<String>,
}

/// The warning of a provider source map that does not fit its artifact.
pub open spec fn map_mismatch_message(error: Seq<char>) -> Seq<char> {
    "the provider source map does not match its Workshop artifact ("@ + error
        + "); findings are reported as unmapped"@
}

/// The files a mapped program's spans name: the map's files as provider
/// paths.
pub open spec fn provider_files(fs: Seq<Seq<char>>) -> Seq<Seq<char>> {
    fs.map_values(|f: Seq<char>| provider_path(f))
}

/// Loads a provider artifact: parse, apply the source map if there is one
/// (`map` is the provider's mapped-text artifact), validate. A parse error
/// fails with no mapped files; a map that does not fit leaves the program
/// unmapped with one `source-map-mismatch` warning; a validation error
/// fails with the map's files when it was applied.
pub fn load_provider_artifact(text: &str, locale: &str, map: Option<&str>, display: &str) -> (r: Result<
    ArtifactLoad,
    ArtifactFailure,
>)
    ensures
        match artifact_run_of(text@, locale@, str_opt(map)) {
            Err(f) => r matches Err(a) && failure_view(a.failure) == f && a.mapped_files@.len() == 0,
            Ok((applied, validated)) => {
                let mapped = match applied {
                    Some(Ok(fs)) => fs,
                    _ => Seq::<Seq<char>>::empty(),
                };
                match validated {
                    Some(f) => r matches Err(a) && failure_view(a.failure) == f && files_view(
                        a.mapped_files@,
                    ) == mapped,
                    None => r matches Ok(l) && {
                        &&& (l.provenance == if applied matches Some(Ok(_)) {
                            Provenance::Mapped
                        } else {
                            Provenance::Unmapped
                        })
                        &&& files_view(l.source_files@) == if applied matches Some(Ok(_)) {
                            provider_files(mapped)
                        } else {
                            seq![display@]
                        }
                        &&& match applied {
                            Some(Err(e)) => l.warnings@.len() == 1 && crate::diag::plain_diagnostic(
                                l.warnings@[0],
                                "source-map-mismatch"@,
                                Stage::Frontend,
                                Severity::Warning,
                                map_mismatch_message(e),
                            ),
                            _ => l.warnings@.len() == 0,
                        }
                    },
                }
            },
        },
{
    let (program, applied, validated) = match run_artifact(text, locale, map) {
        Ok(x) => x,
        Err(f) => return Err(ArtifactFailure { failure: f, mapped_files: Vec::new() }),
    };
    let mut provenance = Provenance::Unmapped;
    let mut source_files: Vec<String> = Vec::new();
    source_files.push(owned(display));
    proof {
        assert(files_view(source_files@) =~= seq![display@]);
    }
    let mut warnings: Vec<Diagnostic> = Vec::new();
    let mut mapped: Vec<String> = Vec::new();
    match applied {
        None => {},
        Some(Ok(fs)) => {
            provenance = Provenance::Mapped;
            let mut files: Vec<String> = Vec::new();
            let mut i: usize = 0;
            while i < fs.len()
                invariant
                    i <= fs@.len(),
                    files@.len() == i,
                    forall|k: int| 0 <= k < i ==> (#[trigger] files@[k])@ == provider_path(fs@[k]@),
                decreases fs@.len() - i,
            {
                files.push(provider_uri_path(fs[i].as_str()));
                i = i + 1;
            }
            proof {
                assert(files_view(files@) =~= provider_files(files_view(fs@)));
            }
            source_files = files;
            mapped = fs;
        },
        Some(Err(e)) => {
            let mut message = owned("the provider source map does not match its Workshop artifact (");
            message.append(e.as_str());
            message.append("); findings are reported as unmapped");
            let w = Diagnostic::warning("source-map-mismatch", Stage::Frontend, message.as_str());
            proof {
                assert(message@ == map_mismatch_message(e@));
            }
            warnings.push(w);
        },
    }
    proof {
        assert(files_view(Seq::<String>::empty()) =~= Seq::<Seq<char>>::empty());
    }
    match validated {
        Some(f) => Err(ArtifactFailure { failure: f, mapped_files: mapped }),
        None => Ok(ArtifactLoad { program, provenance, source_files, warnings }),
    }
}


/// What emitting the program of an artifact gives, as plain values: none
/// when the artifact does not give a program (see [`artifact_run_of`]),
/// else the emitted Workshop text or the emission error.
pub uninterp spec fn artifact_emit_of(text: Seq<char>, locale: Seq<char>, map: Option<Seq<char>>) -> Option<
    Result<Seq<char>, (FailureKindView, Seq<char>, Option<Span>)>,
>;

pub open spec fn emit_view(r: Option<Result<String, WorkshopFailure>>) -> Option<
    Result<Seq<char>, (FailureKindView, Seq<char>, Option<Span>)>,
> {
    match r {
        None => None,
        Some(Ok(t)) => Some(Ok(t@)),
        Some(Err(f)) => Some(Err(failure_view(f))),
    }
}

/// Emits the program [`run_artifact`] loads from an artifact with
/// `emitter::emit`, against the built-in catalog, in `Locale::new(locale)`.
/// The outcome is named as a function of the arguments; there is one
/// exactly when the artifact gives a program.
#[verifier::external_body]
fn emit_artifact(text: &str, locale: &str, map: Option<&str>) -> (r: Option<Result<String, WorkshopFailure>>)
    ensures
        emit_view(r) == artifact_emit_of(text@, locale@, str_opt(map)),
        r is Some <==> artifact_run_of(text@, locale@, str_opt(map)) is Ok,
{
    let (program, _, _) = run_artifact(text, locale, map).ok()?;
    let catalog = workshop_rs::catalog::Catalog::builtin().ok()?;
    Some(workshop_rs::emitter::emit(&program, &catalog, &workshop_rs::catalog::Locale::new(locale)).map_err(failure_of))
}

/// The name `Locale::new` gives a locale spelling: trimmed, in ASCII lower
/// case.
pub open spec fn locale_name(s: Seq<char>) -> Seq<char> {
    crate::text::ascii_lower(crate::text::trim(s))
}

fn locale_name_exec(s: &str) -> (r: String)
    ensures
        r@ == locale_name(s@),
{
    let c = crate::text::chars_of(s);
    let t = crate::text::trim_chars(c.as_slice());
    let l = crate::text::ascii_lower_chars(t.as_slice());
    crate::text::string_from_chars(l.as_slice())
}

/// Why compiling a provider artifact failed: it did not load, or its
/// program could not be emitted.
pub enum CompileFailure {
    Load(ArtifactFailure),
    Emit(WorkshopFailure),
}

/// Compiles a provider artifact: loads it (see [`load_provider_artifact`])
/// and emits its program in the artifact's locale; the output carries the
/// emitted text, its SHA-256 identity, the locale's name and the input's
/// identity `input_identity`.
pub fn compile_artifact(
    text: &str,
    locale: &str,
    map: Option<&str>,
    display: &str,
    input_identity: &str,
) -> (r: Result<crate::result::CompiledOutput, CompileFailure>)
    ensures
        match artifact_run_of(text@, locale@, str_opt(map)) {
            Err(f) => r matches Err(CompileFailure::Load(a)) && failure_view(a.failure) == f,
            Ok((_, Some(f))) => r matches Err(CompileFailure::Load(a)) && failure_view(a.failure) == f,
            Ok((_, None)) => match artifact_emit_of(text@, locale@, str_opt(map)) {
                Some(Ok(t)) => r matches Ok(c) && c.text@ == t && c.sha256@ == crate::identity_of(t)
                    && c.locale@ == locale_name(locale@) && c.written_to@.len() == 0
                    && c.input_identity@ == input_identity@,
                Some(Err(f)) => r matches Err(CompileFailure::Emit(g)) && failure_view(g) == f,
                None => false,
            },
        },
{
    match load_provider_artifact(text, locale, map, display) {
        Err(a) => Err(CompileFailure::Load(a)),
        Ok(_) => match emit_artifact(text, locale, map) {
            Some(Ok(out)) => {
                let sha256 = crate::input_identity(out.as_str());
                Ok(crate::result::CompiledOutput {
                    text: out,
                    sha256,
                    locale: locale_name_exec(locale),
                    written_to: String::new(),
                    input_identity: owned(input_identity),
                })
            },
            Some(Err(f)) => Err(CompileFailure::Emit(f)),
            None => Err(CompileFailure::Emit(WorkshopFailure {
                kind: WorkshopFailureKind::Other,
                message: String::new(),
                span: None,
            })),
        },
    }
}

} // verus!
