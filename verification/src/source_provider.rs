//! The source-provider seam: which language a source target is in, where its
//! entry lives, and the structured failures a provider reports.

use vstd::prelude::*;

use crate::diag::{plain_diagnostic, Diagnostic, Origin, Position, Severity, SourceSpan, Stage};
use crate::document::{file_url, file_url_of_path, opt_view, url_file_path, url_file_path_of};
use crate::lpp::{DocumentDiagnostics, LppArtifact, LppDiagnostic, LppSeverity, ProjectEntry};
use crate::paths::{is_absolute, is_absolute_path, join, join_path};
use crate::text::owned;

verus! {

#[derive(Debug, Clone, Copy, PartialEq, Eq, Structural)]
pub enum SourceLanguage {
    Opy,
}

#[derive(Debug, Clone, Copy, PartialEq, Eq, Structural)]
pub enum SourceTargetKind {
    File,
    Directory,
}

/// The canonical language id of a source language.
pub open spec fn source_language_name(l: SourceLanguage) -> Seq<char> {
    match l {
        SourceLanguage::Opy => "opy"@,
    }
}

impl SourceLanguage {
    pub fn as_str(self) -> (r: &'static str)
        ensures
            r@ == source_language_name(self),
    {
        match self {
            SourceLanguage::Opy => "opy",
        }
    }
}

/// Which compiler backend serves source-language inputs.
#[derive(Debug, Clone, Copy, PartialEq, Eq, Structural, Default)]
pub enum SourceBackend {
    #[default]
    Native,
    Auto,
    Provider,
}

/// A source entry (file or directory) resolved against the invocation
/// directory.
#[derive(Debug, Clone, PartialEq, Eq)]
pub struct SourceTarget {
    pub language: SourceLanguage,
    pub entry: String,
    pub kind: SourceTargetKind,
    pub cwd: String,
    pub project_root: Option<String>,
}

/// The entry path of a target: absolute entries stand, relative ones are
/// resolved from the invocation directory.
pub open spec fn resolved_entry(entry: Seq<char>, cwd: Seq<char>) -> Seq<char> {
    if is_absolute_path(entry) {
        entry
    } else {
        join_path(cwd, entry)
    }
}

impl SourceTarget {
    pub fn new(language: SourceLanguage, entry: &str, cwd: &str) -> (t: SourceTarget)
        ensures
            t.language == language,
            t.entry@ == resolved_entry(entry@, cwd@),
            t.kind == SourceTargetKind::File,
            t.cwd@ == cwd@,
            t.project_root is None,
    {
        let entry = if is_absolute(entry) {
            owned(entry)
        } else {
            join(cwd, entry)
        };
        SourceTarget {
            language,
            entry,
            kind: SourceTargetKind::File,
            cwd: owned(cwd),
            project_root: None,
        }
    }

    pub fn directory(language: SourceLanguage, directory: &str, cwd: &str) -> (t: SourceTarget)
        ensures
            t.language == language,
            t.entry@ == resolved_entry(directory@, cwd@),
            t.kind == SourceTargetKind::Directory,
            t.cwd@ == cwd@,
            t.project_root is None,
    {
        let mut target = Self::new(language, directory, cwd);
        target.kind = SourceTargetKind::Directory;
        target
    }

    pub fn with_project_root(self, project_root: String) -> (t: SourceTarget)
        ensures
            t.language == self.language,
            t.entry == self.entry,
            t.kind == self.kind,
            t.cwd == self.cwd,
            t.project_root == Some(project_root),
    {
        let mut target = self;
        target.project_root = Some(project_root);
        target
    }

    pub fn entry_path(&self) -> (r: &str)
        ensures
            r@ == self.entry@,
    {
        self.entry.as_str()
    }

    pub fn is_directory(&self) -> (r: bool)
        ensures
            r == (self.kind == SourceTargetKind::Directory),
    {
        self.kind == SourceTargetKind::Directory
    }
}

/// A structured source-provider failure.
#[derive(Debug, Clone, PartialEq, Eq)]
pub enum SourceProviderError {
    NotConfigured { language: SourceLanguage },
    Unsupported { message: String },
    Failed { code: String, message: String },
}

/// The stable code of a provider failure.
pub open spec fn provider_error_code(e: SourceProviderError) -> Seq<char> {
    match e {
        SourceProviderError::NotConfigured { .. } => "source-provider-not-configured"@,
        SourceProviderError::Unsupported { .. } => "source-provider-unsupported"@,
        SourceProviderError::Failed { code, .. } => code@,
    }
}

/// The human-readable text of a provider failure.
pub open spec fn provider_error_message(e: SourceProviderError) -> Seq<char> {
    match e {
        SourceProviderError::NotConfigured { language } => "no source provider is configured for '"@
            + source_language_name(language) + "'"@,
        SourceProviderError::Unsupported { message } => message@,
        SourceProviderError::Failed { message, .. } => message@,
    }
}

/// The stage a provider failure is reported in: unsupported requests are a
/// frontend limit, everything else is internal.
pub open spec fn provider_error_stage(e: SourceProviderError) -> Stage {
    match e {
        SourceProviderError::Unsupported { .. } => Stage::Frontend,
        _ => Stage::Internal,
    }
}

impl SourceProviderError {
    pub fn code(&self) -> (r: &str)
        ensures
            r@ == provider_error_code(*self),
    {
        match self {
            SourceProviderError::NotConfigured { .. } => "source-provider-not-configured",
            SourceProviderError::Unsupported { .. } => "source-provider-unsupported",
            SourceProviderError::Failed { code, .. } => code.as_str(),
        }
    }

    /// The failure's text (what `Display` renders).
    pub fn message(&self) -> (r: String)
        ensures
            r@ == provider_error_message(*self),
    {
        match self {
            SourceProviderError::NotConfigured { language } => {
                let mut m = owned("no source provider is configured for '");
                m.append(language.as_str());
                m.append("'");
                m
            },
            SourceProviderError::Unsupported { message } => message.clone(),
            SourceProviderError::Failed { message, .. } => message.clone(),
        }
    }

    pub fn diagnostic(&self) -> (d: Diagnostic)
        ensures
            plain_diagnostic(
                d,
                provider_error_code(*self),
                provider_error_stage(*self),
                Severity::Error,
                provider_error_message(*self),
            ),
    {
        let stage = match self {
            SourceProviderError::Unsupported { .. } => Stage::Frontend,
            SourceProviderError::NotConfigured { .. } | SourceProviderError::Failed { .. } => {
                Stage::Internal
            },
        };
        let message = self.message();
        Diagnostic::error(self.code(), stage, message.as_str())
    }
}

// ---------------------------------------------------------------------------
// Compilations.
// ---------------------------------------------------------------------------

#[verifier::external_type_specification]
#[verifier::external_body]
pub struct ExSourceMap(workshop_rs::SourceMap);

/// The format tag of plain canonical Workshop text.
pub const TEXT_V1: &'static str = "workshop-rs/text-v1";

/// The format tag of Workshop text with its source map.
pub const MAPPED_TEXT_V1: &'static str = "workshop-rs/mapped-text-v1";

/// How a compiled Workshop artifact relates to the authored source.
#[derive(Debug)]
pub enum SourceProvenance {
    /// The artifact carries no mapping to the authored source.
    Unmapped,
    /// The artifact came with a source map for the program parsed from its
    /// Workshop text.
    Mapped(workshop_rs::SourceMap),
}

/// What a source provider compiled.
#[derive(Debug)]
pub struct SourceCompilation {
    pub workshop_text: Option<String>,
    pub locale: Option<String>,
    pub provenance: SourceProvenance,
    pub diagnostics: Vec<Diagnostic>,
    pub source_identity: Option<String>,
}

impl SourceCompilation {
    /// A compilation that produced `workshop_text` and nothing else.
    pub fn success(workshop_text: &str) -> (c: SourceCompilation)
        ensures
            c.workshop_text matches Some(t) && t@ == workshop_text@,
            c.locale is None,
            c.provenance is Unmapped,
            c.diagnostics@.len() == 0,
            c.source_identity is None,
    {
        SourceCompilation {
            workshop_text: Some(owned(workshop_text)),
            locale: None,
            provenance: SourceProvenance::Unmapped,
            diagnostics: Vec::new(),
            source_identity: None,
        }
    }
}

/// A source-language provider: checks and compiles a source target to
/// Workshop text. Checking compiles unless a provider checks more cheaply.
pub trait SourceProvider {
    fn language(&self) -> SourceLanguage;

    fn check(&mut self, target: &SourceTarget) -> Result<SourceCompilation, SourceProviderError> {
        self.compile(target)
    }

    fn compile(&mut self, target: &SourceTarget) -> Result<SourceCompilation, SourceProviderError>;
}

/// The directory URL of a path, as `url::Url::from_directory_path` builds it.
pub uninterp spec fn directory_url_of_path(p: Seq<char>) -> Option<Seq<char>>;

/// `url::Url::from_directory_path`, rendered as text. The result is named
/// as a function of the path.
#[verifier::external_body]
fn directory_url(p: &str) -> (r: Option<String>)
    ensures
        opt_view(r) == directory_url_of_path(p@),
{
    url::Url::from_directory_path(std::path::Path::new(p)).ok().map(|u| u.to_string())
}

/// What `MappedText::from_json` makes of an artifact: its Workshop text, or
/// the error's text.
pub uninterp spec fn mapped_text_of(json: Seq<char>) -> Result<Seq<char>, Seq<char>>;

/// `MappedText::from_json`: the artifact's Workshop text and source map, or
/// the parse error as text. The text (or error) is named as a function of
/// the artifact; the source map is opaque.
#[verifier::external_body]
fn mapped_text(json: &str) -> (r: Result<(String, workshop_rs::SourceMap), String>)
    ensures
        match r {
            Ok(x) => mapped_text_of(json@) == Ok::<Seq<char>, Seq<char>>(x.0@),
            Err(e) => mapped_text_of(json@) == Err::<Seq<char>, Seq<char>>(e@),
        },
{
    match workshop_rs::MappedText::from_json(json) {
        Ok(mapped) => Ok((mapped.text, mapped.map)),
        Err(error) => Err(error.to_string()),
    }
}

/// The provider project entry of a source target: its `file:` URI, or the
/// failure when the entry names no absolute file path.
pub fn lpp_entry(target: &SourceTarget) -> (r: Result<ProjectEntry, SourceProviderError>)
    ensures
        match file_url_of_path(target.entry@) {
            Some(u) => r matches Ok(e) && e.uri@ == u && e.language_id@ == "opy"@ && e.version == 1
                && e.kind == target.kind,
            None => r matches Err(SourceProviderError::Failed { code, message }) && code@
                == "provider-invalid-entry"@ && message@ == "cannot convert OPY entry '"@
                + target.entry@ + "' to an absolute file URI"@,
        },
{
    match file_url(target.entry.as_str()) {
        Some(uri) => Ok(
            ProjectEntry {
                uri,
                language_id: owned(SourceLanguage::Opy.as_str()),
                version: 1,
                kind: target.kind,
            },
        ),
        None => {
            let mut message = owned("cannot convert OPY entry '");
            message.append(target.entry.as_str());
            message.append("' to an absolute file URI");
            Err(SourceProviderError::Failed { code: owned("provider-invalid-entry"), message })
        },
    }
}

/// The directory URI of a target's project root, if it has one that names
/// an absolute directory.
pub fn project_root_uri(target: &SourceTarget) -> (r: Option<String>)
    ensures
        opt_view(r) == match target.project_root {
            Some(root) => directory_url_of_path(root@),
            None => None,
        },
{
    match &target.project_root {
        Some(root) => directory_url(root.as_str()),
        None => None,
    }
}

/// The path a provider URI stands for: the file path of a `file:` URI,
/// else the URI itself.
pub open spec fn provider_path(uri: Seq<char>) -> Seq<char> {
    match url_file_path_of(uri) {
        Some(p) => p,
        None => uri,
    }
}

pub fn provider_uri_path(uri: &str) -> (r: String)
    ensures
        r@ == provider_path(uri@),
{
    match url_file_path(uri) {
        Some(p) => p,
        None => owned(uri),
    }
}

/// One more, saturating at the largest value.
pub open spec fn saturating_inc(n: u32) -> u32 {
    if n == u32::MAX {
        n
    } else {
        (n + 1) as u32
    }
}

/// A provider position (0-based) as a 1-based line/column position.
pub fn provider_position(pos: crate::document::Position) -> (r: Position)
    ensures
        r.line == saturating_inc(pos.line),
        r.col == saturating_inc(pos.character),
{
    Position { line: pos.line.saturating_add(1), col: pos.character.saturating_add(1) }
}

/// `x` is the Wright diagnostic of provider diagnostic `d`, reported in
/// file `file` at `uri` under `locale`.
pub open spec fn converted_diagnostic(
    file: int,
    uri: Seq<char>,
    d: LppDiagnostic,
    locale: Option<Seq<char>>,
    x: Diagnostic,
) -> bool {
    &&& x.code@ == match d.code {
        Some(c) => c@,
        None => "provider-diagnostic"@,
    }
    &&& x.stage == Stage::Frontend
    &&& x.severity == match d.severity {
        LppSeverity::Error => Severity::Error,
        LppSeverity::Warning => Severity::Warning,
        _ => Severity::Info,
    }
    &&& x.message@ == d.message@
    &&& x.status is None
    &&& x.span matches Some(s) && s.file == file && s.path@ == provider_path(uri) && s.start
        == Position {
        line: saturating_inc(d.range.start.line),
        col: saturating_inc(d.range.start.character),
    } && s.end == Position {
        line: saturating_inc(d.range.end.line),
        col: saturating_inc(d.range.end.character),
    }
    &&& x.source matches Some(o) && o.kind@ == "opy"@ && opt_view(o.locale) == locale
}

/// Where the diagnostics of document `f` start in the flattened list.
pub open spec fn diag_offset(docs: Seq<DocumentDiagnostics>, f: int) -> int
    decreases f,
{
    if f <= 0 {
        0
    } else {
        diag_offset(docs, f - 1) + docs[f - 1].diagnostics@.len()
    }
}

/// `out` holds, document by document and in order, the Wright diagnostic of
/// every provider diagnostic; the document's index is its file number.
pub open spec fn provider_diagnostics_of(
    docs: Seq<DocumentDiagnostics>,
    locale: Option<Seq<char>>,
    out: Seq<Diagnostic>,
) -> bool {
    &&& out.len() == diag_offset(docs, docs.len() as int)
    &&& forall|f: int, k: int|
        0 <= f < docs.len() && 0 <= k < docs[f].diagnostics@.len() ==> converted_diagnostic(
            f,
            docs[f].uri@,
            #[trigger] docs[f].diagnostics@[k],
            locale,
            out[diag_offset(docs, f) + k],
        )
}

proof fn lemma_diag_offset_nonneg(docs: Seq<DocumentDiagnostics>, a: int)
    requires
        0 <= a <= docs.len(),
    ensures
        0 <= diag_offset(docs, a),
    decreases a,
{
    if a > 0 {
        lemma_diag_offset_nonneg(docs, a - 1);
    }
}

proof fn lemma_diag_offset_mono(docs: Seq<DocumentDiagnostics>, a: int, b: int)
    requires
        0 <= a <= b <= docs.len(),
    ensures
        0 <= diag_offset(docs, a),
        diag_offset(docs, a) + (if a < b {
            docs[a].diagnostics@.len() as int
        } else {
            0
        }) <= diag_offset(docs, b),
    decreases b - a,
{
    lemma_diag_offset_nonneg(docs, a);
    if a < b {
        if a + 1 < b {
            lemma_diag_offset_mono(docs, a + 1, b);
        }
    }
}

fn copy_locale(locale: Option<&str>) -> (r: Option<String>)
    ensures
        opt_view(r) == match locale {
            Some(l) => Some(l@),
            None => None,
        },
{
    match locale {
        Some(l) => Some(owned(l)),
        None => None,
    }
}

/// The Wright diagnostics of a provider's per-document diagnostics.
pub fn provider_diagnostics(documents: &[DocumentDiagnostics], locale: Option<&str>) -> (out: Vec<
    Diagnostic,
>)
    ensures
        provider_diagnostics_of(
            documents@,
            match locale {
                Some(l) => Some(l@),
                None => None,
            },
            out@,
        ),
{
    let ghost loc = match locale {
        Some(l) => Some(l@),
        None => None::<Seq<char>>,
    };
    let mut out: Vec<Diagnostic> = Vec::new();
    let mut f: usize = 0;
    while f < documents.len()
        invariant
            f <= documents@.len(),
            loc == match locale {
                Some(l) => Some(l@),
                None => None,
            },
            out@.len() == diag_offset(documents@, f as int),
            forall|g: int, k: int|
                0 <= g < f && 0 <= k < documents@[g].diagnostics@.len() ==> converted_diagnostic(
                    g,
                    documents@[g].uri@,
                    #[trigger] documents@[g].diagnostics@[k],
                    loc,
                    out@[diag_offset(documents@, g) + k],
                ),
        decreases documents@.len() - f,
    {
        let doc = &documents[f];
        let path = provider_uri_path(doc.uri.as_str());
        let ghost base = out@.len();
        let mut k: usize = 0;
        while k < doc.diagnostics.len()
            invariant
                f < documents@.len(),
                *doc == documents@[f as int],
                path@ == provider_path(doc.uri@),
                loc == match locale {
                    Some(l) => Some(l@),
                    None => None,
                },
                base == diag_offset(documents@, f as int),
                k <= doc.diagnostics@.len(),
                out@.len() == base + k,
                forall|g: int, j: int|
                    0 <= g < f && 0 <= j < documents@[g].diagnostics@.len() ==> converted_diagnostic(
                        g,
                        documents@[g].uri@,
                        #[trigger] documents@[g].diagnostics@[j],
                        loc,
                        out@[diag_offset(documents@, g) + j],
                    ),
                forall|j: int| 0 <= j < k ==> converted_diagnostic(
                    f as int,
                    doc.uri@,
                    #[trigger] doc.diagnostics@[j],
                    loc,
                    out@[base + j],
                ),
            decreases doc.diagnostics@.len() - k,
        {
            let d = &doc.diagnostics[k];
            let severity = match d.severity {
                LppSeverity::Error => Severity::Error,
                LppSeverity::Warning => Severity::Warning,
                _ => Severity::Info,
            };
            let code = match &d.code {
                Some(c) => c.clone(),
                None => owned("provider-diagnostic"),
            };
            let x = Diagnostic {
                code,
                stage: Stage::Frontend,
                severity,
                message: d.message.clone(),
                status: None,
                span: Some(
                    SourceSpan {
                        file: f,
                        path: path.clone(),
                        start: provider_position(d.range.start),
                        end: provider_position(d.range.end),
                    },
                ),
                source: Some(Origin { kind: owned(SourceLanguage::Opy.as_str()), locale: copy_locale(locale) }),
            };
            let ghost before = out@;
            out.push(x);
            proof {
                assert forall|g: int, j: int|
                    0 <= g < f && 0 <= j < documents@[g].diagnostics@.len() implies converted_diagnostic(
                        g,
                        documents@[g].uri@,
                        #[trigger] documents@[g].diagnostics@[j],
                        loc,
                        out@[diag_offset(documents@, g) + j],
                    ) by {
                    lemma_diag_offset_mono(documents@, g, f as int);
                    assert(out@[diag_offset(documents@, g) + j] == before[diag_offset(documents@, g) + j]);
                }
            }
            k = k + 1;
        }
        proof {
            assert forall|g: int, j: int|
                0 <= g < f + 1 && 0 <= j < documents@[g].diagnostics@.len() implies converted_diagnostic(
                    g,
                    documents@[g].uri@,
                    #[trigger] documents@[g].diagnostics@[j],
                    loc,
                    out@[diag_offset(documents@, g) + j],
                ) by {
                if g == f {
                    assert(documents@[g].diagnostics@[j] == doc.diagnostics@[j]);
                }
            }
        }
        f = f + 1;
    }
    out
}

/// What a provider check amounts to: no Workshop text, the session locale,
/// no mapping, the provider's diagnostics, no identity.
pub fn check_compilation(documents: &[DocumentDiagnostics], locale: Option<&str>) -> (c:
    SourceCompilation)
    ensures
        c.workshop_text is None,
        opt_view(c.locale) == match locale {
            Some(l) => Some(l@),
            None => None,
        },
        c.provenance is Unmapped,
        provider_diagnostics_of(
            documents@,
            match locale {
                Some(l) => Some(l@),
                None => None,
            },
            c.diagnostics@,
        ),
        c.source_identity is None,
{
    SourceCompilation {
        workshop_text: None,
        locale: copy_locale(locale),
        provenance: SourceProvenance::Unmapped,
        diagnostics: provider_diagnostics(documents, locale),
        source_identity: None,
    }
}

/// What a compiled artifact contributes: the Workshop text of a plain text
/// artifact; the text and map of a mapped artifact (only when the session
/// negotiated artifacts); a failure for a malformed mapped artifact or any
/// other format; nothing when there is no artifact.
pub open spec fn artifact_outcome(artifact: Option<LppArtifact>, negotiates: bool) -> Result<
    Option<(Seq<char>, bool)>,
    Seq<char>,
> {
    match artifact {
        None => Ok(None),
        Some(a) => if a.format@ == TEXT_V1@ {
            Ok(Some((a.content@, false)))
        } else if negotiates && a.format@ == MAPPED_TEXT_V1@ {
            match mapped_text_of(a.content@) {
                Ok(t) => Ok(Some((t, true))),
                Err(e) => Err(
                    "the source provider returned an invalid '"@ + MAPPED_TEXT_V1@ + "' artifact: "@
                        + e,
                ),
            }
        } else {
            Err(
                "the source provider returned unsupported artifact format '"@ + a.format@
                    + "', expected '"@ + TEXT_V1@ + "'"@,
            )
        },
    }
}

/// What a provider compile amounts to: the artifact's text and provenance,
/// the session locale, the provider's diagnostics and its source identity;
/// or the `provider-artifact-format` failure.
pub fn compile_compilation(
    artifact: Option<LppArtifact>,
    negotiates: bool,
    documents: &[DocumentDiagnostics],
    source_identity: Option<String>,
    locale: Option<&str>,
) -> (r: Result<SourceCompilation, SourceProviderError>)
    ensures
        match artifact_outcome(artifact, negotiates) {
            Err(m) => r matches Err(SourceProviderError::Failed { code, message }) && code@
                == "provider-artifact-format"@ && message@ == m,
            Ok(o) => r matches Ok(c) && {
                &&& match o {
                    None => c.workshop_text is None && c.provenance is Unmapped,
                    Some((t, mapped)) => (c.workshop_text matches Some(x) && x@ == t) && (
                    c.provenance is Mapped <==> mapped),
                }
                &&& opt_view(c.locale) == match locale {
                    Some(l) => Some(l@),
                    None => None,
                }
                &&& provider_diagnostics_of(
                    documents@,
                    match locale {
                        Some(l) => Some(l@),
                        None => None,
                    },
                    c.diagnostics@,
                )
                &&& opt_view(c.source_identity) == opt_view(source_identity)
            },
        },
{
    let (workshop_text, provenance) = match artifact {
        None => (None, SourceProvenance::Unmapped),
        Some(a) => {
            if crate::text::str_eq(a.format.as_str(), TEXT_V1) {
                (Some(a.content), SourceProvenance::Unmapped)
            } else if negotiates && crate::text::str_eq(a.format.as_str(), MAPPED_TEXT_V1) {
                match mapped_text(a.content.as_str()) {
                    Ok((text, map)) => (Some(text), SourceProvenance::Mapped(map)),
                    Err(e) => {
                        let mut message = owned("the source provider returned an invalid '");
                        message.append(MAPPED_TEXT_V1);
                        message.append("' artifact: ");
                        message.append(e.as_str());
                        return Err(
                            SourceProviderError::Failed {
                                code: owned("provider-artifact-format"),
                                message,
                            },
                        );
                    },
                }
            } else {
                let mut message = owned("the source provider returned unsupported artifact format '");
                message.append(a.format.as_str());
                message.append("', expected '");
                message.append(TEXT_V1);
                message.append("'");
                return Err(
                    SourceProviderError::Failed { code: owned("provider-artifact-format"), message },
                );
            }
        },
    };
    Ok(
        SourceCompilation {
            workshop_text,
            locale: copy_locale(locale),
            provenance,
            diagnostics: provider_diagnostics(documents, locale),
            source_identity,
        },
    )
}

} // verus!
