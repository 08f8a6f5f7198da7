//! The editor-neutral language service over the open documents.
//!
//! Source-language analysis is owned by a source provider, and no editor
//! capability is negotiated with one: every analysis of an open document
//! reports the provider boundary, so the service answers with that refusal
//! and with empty symbol queries rather than a static fallback.

use vstd::prelude::*;

use vstd::string::StringExecFns;

use crate::document::{
    Document, DocumentStore, Position, Range, opt_view, paths_equal, paths_equal_of, uri_path,
    uri_to_path,
};
use crate::edit::{strictly_sorted, strs};
use crate::paths::{join, join_path};
use crate::text::seq_le;
use crate::edit::SourcePreview;
use crate::text::ascii_lower;

verus! {

broadcast use vstd::string::group_string_axioms;

/// A diagnostic of an open document.
#[derive(Debug, Clone)]
pub struct SourceDiagnostic {
    pub source: String,
    pub range: Range,
    pub severity: String,
    pub code: String,
    pub message: String,
    pub source_version: i32,
    pub document_version: i32,
}

/// Hover contents at a position.
#[derive(Debug, Clone)]
pub struct Hover {
    pub contents: String,
    pub range: Option<Range>,
    pub document_version: i32,
}

/// One completion candidate.
#[derive(Debug, Clone)]
pub struct CompletionItem {
    pub label: String,
    pub kind: String,
    pub detail: Option<String>,
}

/// One semantic token.
#[derive(Debug, Clone)]
pub struct SemanticToken {
    pub line: u32,
    pub character: u32,
    pub length: u32,
    pub token_type: String,
}

/// A range in a named source.
#[derive(Debug, Clone)]
pub struct SourceLocation {
    pub source: String,
    pub range: Range,
}

/// One edit of a rename, in editor coordinates.
#[derive(Debug, Clone)]
pub struct RenameEdit {
    pub source: String,
    pub range: Range,
    pub new_text: String,
    pub source_identity: String,
    pub source_version: i32,
}

/// The outcome of a rename request.
#[derive(Debug, Clone)]
pub struct RenameResult {
    pub document_version: i32,
    pub ok: bool,
    pub edits: Vec<RenameEdit>,
    pub previews: Vec<SourcePreview>,
    pub diagnostics: Vec<String>,
}

/// The language service: the open documents and the workspace root.
#[derive(Debug)]
pub struct LanguageService {
    pub store: DocumentStore,
    pub root: String,
}

/// The code of an analysis that no source provider can perform.
pub open spec fn unavailable_code() -> Seq<char> {
    "source-provider-unavailable"@
}

/// The message of an analysis that no source provider can perform.
pub open spec fn unavailable_message() -> Seq<char> {
    "source-language analysis is provider-owned and no editor capability is currently negotiated"@
}

/// The empty range at the start of a document.
pub open spec fn empty_range() -> Range {
    Range { start: Position { line: 0, character: 0 }, end: Position { line: 0, character: 0 } }
}

/// The diagnostic that reports the provider boundary for an open document.
pub open spec fn is_boundary_diagnostic(d: SourceDiagnostic, doc: Document) -> bool {
    &&& d.source@ == doc.uri@
    &&& d.range == empty_range()
    &&& d.severity@ == "error"@
    &&& d.code@ == unavailable_code()
    &&& d.message@ == unavailable_message()
    &&& d.source_version == doc.version
    &&& d.document_version == doc.version
}

/// A URI names an OPY, OSTW or DEL source file: the local path it names
/// has one of those extensions, in any ASCII case.
pub open spec fn is_source_document_uri(uri: Seq<char>) -> bool {
    match uri_path(uri) {
        None => false,
        Some(p) => match crate::paths::path_extension(p) {
            None => false,
            Some(e) => {
                let l = ascii_lower(e);
                l == "opy"@ || l == "ostw"@ || l == "del"@
            },
        },
    }
}

fn is_source_document(uri: &str) -> (r: bool)
    ensures
        r == is_source_document_uri(uri@),
{
    let path = match crate::document::uri_to_path(uri) {
        Some(p) => p,
        None => {
            return false;
        },
    };
    let ext = match crate::paths::extension(path.as_str()) {
        Some(e) => e,
        None => {
            return false;
        },
    };
    let c = crate::text::chars_of(ext.as_str());
    let l = crate::text::ascii_lower_chars(c.as_slice());
    let opy = crate::text::chars_of("opy");
    let ostw = crate::text::chars_of("ostw");
    let del = crate::text::chars_of("del");
    crate::text::chars_eq(l.as_slice(), opy.as_slice()) || crate::text::chars_eq(
        l.as_slice(),
        ostw.as_slice(),
    ) || crate::text::chars_eq(l.as_slice(), del.as_slice())
}

/// The message of a rename to an empty name.
pub open spec fn rename_empty_name_message() -> Seq<char> {
    "rename-invalid-name: the new name must not be empty"@
}

/// The message of a rename in a document that is not open.
pub open spec fn rename_not_open_message(uri: Seq<char>) -> Seq<char> {
    "rename-unresolved: no open document for '"@ + uri
        + "'; the source identity cannot be established"@
}

/// The message of a rename in a source document, which only a source
/// provider could perform.
pub open spec fn rename_unavailable_message() -> Seq<char> {
    "source-provider-unavailable: OPY language-service capabilities are not currently shipped with the configured provider"@
}

/// The message of a rename where no symbol resolves.
pub open spec fn rename_unresolved_message() -> Seq<char> {
    "rename-unresolved: no symbol is resolvable at the requested position"@
}

fn refused_rename(version: i32, message: String) -> (r: RenameResult)
    ensures
        r.document_version == version,
        !r.ok,
        r.edits@.len() == 0,
        r.previews@.len() == 0,
        r.diagnostics@.len() == 1,
        r.diagnostics@[0]@ == message@,
{
    let diagnostics = vec![message];
    RenameResult {
        document_version: version,
        ok: false,
        edits: Vec::new(),
        previews: Vec::new(),
        diagnostics,
    }
}

/// The files an open document's analysis includes, by the paths its file
/// registry lists.
#[derive(Debug, Clone)]
pub struct DocumentIncludes {
    pub uri: String,
    pub files: Vec<String>,
}

/// Some listing for document `doc` includes a file that, resolved against
/// `root`, is the path `path`.
pub open spec fn lists_path(
    includes: Seq<DocumentIncludes>,
    doc: Seq<char>,
    root: Seq<char>,
    path: Seq<char>,
) -> bool {
    exists|j: int, f: int|
        0 <= j < includes.len() && includes[j].uri@ == doc && 0 <= f < includes[j].files@.len()
            && #[trigger] paths_equal_of(join_path(root, includes[j].files@[f]@), path)
}

/// Document `doc` depends on a change to `uri`: it is another document, and
/// it includes the path `uri` names.
pub open spec fn depends_on(
    includes: Seq<DocumentIncludes>,
    root: Seq<char>,
    doc: Seq<char>,
    uri: Seq<char>,
) -> bool {
    doc != uri && match uri_path(uri) {
        Some(p) => lists_path(includes, doc, root, p),
        None => false,
    }
}

/// The dependents after the changed document itself (when it is open).
pub open spec fn dependents_after_self(open: bool, r: Seq<Seq<char>>) -> Seq<Seq<char>> {
    if open {
        r.skip(1)
    } else {
        r
    }
}

fn lists_path_exec(includes: &[DocumentIncludes], doc: &str, root: &str, path: &str) -> (r: bool)
    ensures
        r == lists_path(includes@, doc@, root@, path@),
{
    let mut j: usize = 0;
    while j < includes.len()
        invariant
            j <= includes@.len(),
            forall|jj: int, f: int|
                0 <= jj < j && includes@[jj].uri@ == doc@ && 0 <= f < includes@[jj].files@.len()
                    ==> !#[trigger] paths_equal_of(join_path(root@, includes@[jj].files@[f]@), path@),
        decreases includes@.len() - j,
    {
        let entry = &includes[j];
        if crate::text::str_eq(entry.uri.as_str(), doc) {
            let mut f: usize = 0;
            while f < entry.files.len()
                invariant
                    f <= entry.files@.len(),
                    entry == includes@[j as int],
                    entry.uri@ == doc@,
                    j < includes@.len(),
                    forall|g: int| 0 <= g < f ==> !#[trigger] paths_equal_of(join_path(root@, entry.files@[g]@), path@),
                decreases entry.files@.len() - f,
            {
                let resolved = join(root, entry.files[f].as_str());
                if paths_equal(resolved.as_str(), path) {
                    return true;
                }
                f = f + 1;
            }
        }
        j = j + 1;
    }
    false
}

/// A source-language error an analysis reports.
#[derive(Debug, Clone, PartialEq, Eq)]
pub struct SourceError {
    pub code: String,
    pub message: String,
    pub span: Option<crate::hir::Span>,
}

/// A file an analysis names: its index and path.
#[derive(Debug, Clone, PartialEq, Eq)]
pub struct AnalysisFile {
    pub id: usize,
    pub path: String,
}

/// A source-language analysis: the Workshop program it built, its parse
/// errors and the files its spans name. The semantic index and findings of
/// the analyzer are not part of this library; no analysis here has any.
pub struct Analysis {
    pub program: workshop_rs::Program,
    pub parse_errors: Vec<SourceError>,
    pub files: Vec<AnalysisFile>,
}

/// `Program::default`: the empty Workshop program. Nothing is stated of it.
#[verifier::external_body]
fn empty_program() -> (p: workshop_rs::Program) {
    workshop_rs::Program::default()
}

impl LanguageService {
    /// A service with no open documents.
    pub fn new(root: &str) -> (s: LanguageService)
        ensures
            s.store.wf(),
            s.store@ == Map::<Seq<char>, Document>::empty(),
            s.root@ == root@,
    {
        LanguageService { store: DocumentStore::new(root), root: crate::text::owned(root) }
    }

    /// The analysis of a document: source-language analysis belongs to the
    /// provider, so it is the empty program with one
    /// `source-provider-unavailable` parse error, without a place, and no
    /// files.
    pub fn analyze(&self, document: &crate::document::Document) -> (a: Analysis)
        ensures
            a.parse_errors@.len() == 1,
            a.parse_errors@[0].code@ == "source-provider-unavailable"@,
            a.parse_errors@[0].message@ == unavailable_message(),
            a.parse_errors@[0].span is None,
            a.files@.len() == 0,
    {
        let e = SourceError {
            code: crate::text::owned("source-provider-unavailable"),
            message: crate::text::owned(
                "source-language analysis is provider-owned and no editor capability is currently negotiated",
            ),
            span: None,
        };
        Analysis { program: empty_program(), parse_errors: vec![e], files: Vec::new() }
    }

    /// The diagnostics of an open document: the provider boundary, reported
    /// at the document's start. A document that is not open has none.
    pub fn diagnostics(&self, uri: &str) -> (r: Vec<SourceDiagnostic>)
        requires
            self.store.wf(),
        ensures
            !self.store@.contains_key(uri@) ==> r@.len() == 0,
            self.store@.contains_key(uri@) ==> r@.len() == 1 && is_boundary_diagnostic(
                r@[0],
                self.store@[uri@],
            ),
    {
        let document = match self.store.document(uri) {
            Some(d) => d,
            None => {
                return Vec::new();
            },
        };
        let d = SourceDiagnostic {
            source: document.uri.clone(),
            range: Range {
                start: Position { line: 0, character: 0 },
                end: Position { line: 0, character: 0 },
            },
            severity: crate::text::owned("error"),
            code: crate::text::owned("source-provider-unavailable"),
            message: crate::text::owned(
                "source-language analysis is provider-owned and no editor capability is currently negotiated",
            ),
            source_version: document.version,
            document_version: document.version,
        };
        vec![d]
    }

    /// The open documents whose results depend on a changed URI: the
    /// document itself, when it is open, then, in URI order, every other
    /// open document whose included files (as `includes` lists them, each
    /// resolved against the service root) contain the path the URI names.
    pub fn dependent_documents(&self, uri: &str, includes: &[DocumentIncludes]) -> (r: Vec<String>)
        requires
            self.store.wf(),
        ensures
            self.store@.contains_key(uri@) ==> r@.len() >= 1 && r@[0]@ == uri@,
            strictly_sorted(dependents_after_self(self.store@.contains_key(uri@), strs(r@))),
            forall|k: Seq<char>| #[trigger]
                dependents_after_self(self.store@.contains_key(uri@), strs(r@)).contains(k) <==> (
                self.store@.contains_key(k) && depends_on(includes@, self.root@, k, uri@)),
    {
        let mut affected: Vec<String> = Vec::new();
        let open_self = self.store.document(uri).is_some();
        if open_self {
            affected.push(crate::text::owned(uri));
        }
        let ghost h: int = if open_self { 1 } else { 0 };
        let changed = uri_to_path(uri);
        let open = self.store.uris();
        let mut i: usize = 0;
        while i < open.len()
            invariant
                i <= open@.len(),
                h == (if open_self { 1int } else { 0int }),
                open_self == self.store@.contains_key(uri@),
                opt_view(changed) == uri_path(uri@),
                strictly_sorted(strs(open@)),
                affected@.len() >= h,
                open_self ==> affected@[0]@ == uri@,
                strictly_sorted(strs(affected@).skip(h)),
                forall|a: int| 0 <= a < strs(affected@).skip(h).len() ==> exists|j: int|
                    0 <= j < i && #[trigger] strs(affected@).skip(h)[a] == strs(open@)[j],
                forall|k: Seq<char>| #[trigger] strs(affected@).skip(h).contains(k) <==> (exists|j: int|
                    0 <= j < i && strs(open@)[j] == k && depends_on(includes@, self.root@, k, uri@)),
            decreases open@.len() - i,
        {
            let u = &open[i];
            let hit = !crate::text::str_eq(u.as_str(), uri) && match &changed {
                Some(p) => lists_path_exec(includes, u.as_str(), self.root.as_str(), p.as_str()),
                None => false,
            };
            let ghost before = strs(affected@).skip(h);
            if hit {
                affected.push(u.clone());
                assert(strs(affected@).skip(h) =~= before.push(strs(open@)[i as int]));
                assert forall|a: int, b: int| 0 <= a < b < strs(affected@).skip(h).len() implies
                    seq_le(#[trigger] strs(affected@).skip(h)[a], #[trigger] strs(affected@).skip(h)[b])
                    && strs(affected@).skip(h)[a] != strs(affected@).skip(h)[b] by {
                    if b == before.len() {
                        let j = choose|j: int| 0 <= j < i && before[a] == strs(open@)[j];
                        assert(strs(open@)[j] == before[a]);
                        assert(seq_le(strs(open@)[j], strs(open@)[i as int]));
                    } else {
                        assert(before[a] == strs(affected@).skip(h)[a]);
                        assert(before[b] == strs(affected@).skip(h)[b]);
                    }
                }
                assert forall|a: int| 0 <= a < strs(affected@).skip(h).len() implies exists|j: int|
                    0 <= j < i + 1 && #[trigger] strs(affected@).skip(h)[a] == strs(open@)[j] by {
                    if a == before.len() {
                        assert(strs(affected@).skip(h)[a] == strs(open@)[i as int]);
                    } else {
                        assert(strs(affected@).skip(h)[a] == before[a]);
                    }
                }
                assert forall|k: Seq<char>| #[trigger] strs(affected@).skip(h).contains(k) <==> (exists|j: int|
                    0 <= j < i + 1 && strs(open@)[j] == k && depends_on(includes@, self.root@, k, uri@)) by {
                    if strs(affected@).skip(h).contains(k) {
                        let a = choose|a: int| 0 <= a < strs(affected@).skip(h).len() && strs(affected@).skip(h)[a] == k;
                        if a < before.len() {
                            assert(before[a] == k);
                            assert(before.contains(k));
                        } else {
                            assert(strs(open@)[i as int] == k);
                        }
                    }
                    if exists|j: int| 0 <= j < i + 1 && strs(open@)[j] == k && depends_on(includes@, self.root@, k, uri@) {
                        let j = choose|j: int| 0 <= j < i + 1 && strs(open@)[j] == k && depends_on(includes@, self.root@, k, uri@);
                        if j < i {
                            assert(before.contains(k));
                            let a = choose|a: int| 0 <= a < before.len() && before[a] == k;
                            assert(strs(affected@).skip(h)[a] == k);
                        } else {
                            assert(strs(affected@).skip(h)[before.len() as int] == k);
                        }
                    }
                }
            } else {
                assert(strs(affected@).skip(h) == before);
                assert forall|k: Seq<char>| #[trigger] strs(affected@).skip(h).contains(k) <==> (exists|j: int|
                    0 <= j < i + 1 && strs(open@)[j] == k && depends_on(includes@, self.root@, k, uri@)) by {
                    if exists|j: int| 0 <= j < i + 1 && strs(open@)[j] == k && depends_on(includes@, self.root@, k, uri@) {
                        let j = choose|j: int| 0 <= j < i + 1 && strs(open@)[j] == k && depends_on(includes@, self.root@, k, uri@);
                        if j == i {
                            assert(strs(open@)[i as int] == open@[i as int]@);
                            assert(false);
                        }
                    }
                }
            }
            i = i + 1;
        }
        assert(dependents_after_self(self.store@.contains_key(uri@), strs(affected@)) =~= strs(
            affected@,
        ).skip(h));
        assert forall|k: Seq<char>| #[trigger]
            dependents_after_self(self.store@.contains_key(uri@), strs(affected@)).contains(k) <==> (
            self.store@.contains_key(k) && depends_on(includes@, self.root@, k, uri@)) by {
            assert(dependents_after_self(open_self, strs(affected@)) == strs(affected@).skip(h));
            if self.store@.contains_key(k) && depends_on(includes@, self.root@, k, uri@) {
                assert(strs(open@).contains(k));
                let j = choose|j: int| 0 <= j < strs(open@).len() && strs(open@)[j] == k;
            }
            if exists|j: int| 0 <= j < i && strs(open@)[j] == k && depends_on(includes@, self.root@, k, uri@) {
                let j = choose|j: int| 0 <= j < i && strs(open@)[j] == k && depends_on(includes@, self.root@, k, uri@);
                assert(strs(open@).contains(k));
            }
        }
        affected
    }

    /// Hover information: no symbol resolves without a provider.
    pub fn hover(&self, uri: &str, position: Position) -> (r: Option<Hover>)
        ensures
            r is None,
    {
        None
    }

    /// The definition of the symbol at a position: none resolves without a
    /// provider.
    pub fn definition(&self, uri: &str, position: Position) -> (r: Option<SourceLocation>)
        ensures
            r is None,
    {
        None
    }

    /// The references of the symbol at a position: none resolve without a
    /// provider.
    pub fn references(&self, uri: &str, position: Position) -> (r: Vec<SourceLocation>)
        ensures
            r@.len() == 0,
    {
        Vec::new()
    }

    /// Completion candidates: none without a provider.
    pub fn completion(&self, uri: &str, position: Position) -> (r: Vec<CompletionItem>)
        ensures
            r@.len() == 0,
    {
        Vec::new()
    }

    /// Semantic tokens: none without a provider.
    pub fn semantic_tokens(&self, uri: &str) -> (r: Vec<SemanticToken>)
        ensures
            r@.len() == 0,
    {
        Vec::new()
    }

    /// Renames the symbol at a position. The new name must be non-empty and
    /// the document open; a source document (OPY, OSTW, DEL) can only be
    /// renamed by a source provider, which is not shipped; in any other
    /// document no symbol resolves. Every rename is therefore refused, with
    /// the first of these reasons that applies, and carries no edits.
    pub fn rename(&self, uri: &str, position: Position, new_name: &str) -> (r: RenameResult)
        requires
            self.store.wf(),
        ensures
            !r.ok,
            r.edits@.len() == 0,
            r.previews@.len() == 0,
            r.diagnostics@.len() == 1,
            new_name@.len() == 0 ==> r.document_version == 0 && r.diagnostics@[0]@
                == rename_empty_name_message(),
            new_name@.len() > 0 && !self.store@.contains_key(uri@) ==> r.document_version == 0
                && r.diagnostics@[0]@ == rename_not_open_message(uri@),
            new_name@.len() > 0 && self.store@.contains_key(uri@) ==> r.document_version
                == self.store@[uri@].version && r.diagnostics@[0]@ == (if is_source_document_uri(
                uri@,
            ) {
                rename_unavailable_message()
            } else {
                rename_unresolved_message()
            }),
    {
        let name = crate::text::chars_of(new_name);
        if name.len() == 0 {
            return refused_rename(
                0,
                crate::text::owned("rename-invalid-name: the new name must not be empty"),
            );
        }
        let requesting = match self.store.document(uri) {
            Some(d) => d,
            None => {
                let mut m = String::new();
                m.append("rename-unresolved: no open document for '");
                m.append(uri);
                m.append("'; the source identity cannot be established");
                return refused_rename(0, m);
            },
        };
        if is_source_document(uri) {
            return refused_rename(
                requesting.version,
                crate::text::owned(
                    "source-provider-unavailable: OPY language-service capabilities are not currently shipped with the configured provider",
                ),
            );
        }
        refused_rename(
            requesting.version,
            crate::text::owned(
                "rename-unresolved: no symbol is resolvable at the requested position",
            ),
        )
    }
}

} // verus!
