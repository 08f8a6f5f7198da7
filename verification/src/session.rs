//! Session-level decisions: which operation a load runs, whether a loaded
//! program is reused, which frontend a resolved input is routed to, the
//! provenance of a loaded program, and what a source provider's compilation
//! leaves for the session to load.

use vstd::prelude::*;

use crate::config::{InputSpec, SourceKind, source_kind_name};
use crate::diag::{plain_diagnostic, Diagnostic, Severity, Stage};
use crate::edit::{DiagSpec, describes, provider_unavailable, provider_unavailable_diagnostic};
use crate::document::opt_view;
use crate::input::{InputTarget, ResolvedInput};
use crate::opy_provider::{is_ascii_hex, is_sha256_hex};
use crate::source_provider::{
    SourceBackend, SourceCompilation, SourceLanguage, SourceProvenance, SourceProviderError,
    SourceTarget, SourceTargetKind, resolved_entry,
};
use crate::text::{chars_of, copy_string, owned};

verus! {

broadcast use vstd::string::group_string_axioms;

/// Provenance of the semantic program handed to Wright's analyzer.
#[derive(Debug, Clone, Copy, PartialEq, Eq, Structural)]
pub enum Provenance {
    /// The program was parsed from the source files represented by the input.
    Source,
    /// The program came from an unmapped provider-returned canonical artifact.
    Unmapped,
    /// The program came from a provider-returned canonical artifact whose
    /// source map was applied; nodes without an authored origin stay unmapped.
    Mapped,
}

/// Which provider workflow a load runs.
#[derive(Debug, Clone, Copy, PartialEq, Eq, Structural)]
pub enum ProviderOperation {
    Check,
    Compile,
}

/// What a provider compilation leaves for the session to load.
#[derive(Debug)]
pub struct ProviderLoad {
    /// The input identity: the provider's for a compiled directory target,
    /// else the one the input was resolved with.
    pub identity: String,
    /// The provider's diagnostics, which the session keeps.
    pub diagnostics: Vec<Diagnostic>,
    /// The locale name the Workshop artifact is read in.
    pub locale: String,
    /// The canonical Workshop text to parse; none for a check.
    pub workshop_text: Option<String>,
    /// How the artifact maps to the authored source.
    pub provenance: SourceProvenance,
}

/// Index `i` holds the first error-severity diagnostic.
pub open spec fn first_error_at(ds: Seq<Diagnostic>, i: int) -> bool {
    &&& 0 <= i < ds.len()
    &&& ds[i].severity == Severity::Error
    &&& forall|j: int| 0 <= j < i ==> (#[trigger] ds[j]).severity != Severity::Error
}

pub open spec fn has_error(ds: Seq<Diagnostic>) -> bool {
    exists|i: int| 0 <= i < ds.len() && (#[trigger] ds[i]).severity == Severity::Error
}

/// The locale an artifact is read in: the provider's, else the input's,
/// else `en-US`.
pub open spec fn artifact_locale(compiled: Option<Seq<char>>, input: Option<Seq<char>>) -> Seq<char> {
    match compiled {
        Some(l) => l,
        None => match input {
            Some(l) => l,
            None => "en-US"@,
        },
    }
}

/// The identity refusal of a compiled directory target, if its source
/// identity is missing or not a SHA-256 digest.
pub open spec fn identity_refusal(identity: Option<Seq<char>>) -> Option<Seq<char>> {
    match identity {
        None => Some("the source provider returned no source identity for the directory target"@),
        Some(s) => if is_sha256_hex(s) {
            None
        } else {
            Some("the source provider returned an invalid SHA-256 source identity"@)
        },
    }
}

fn sha256_hex_check(s: &str) -> (r: bool)
    ensures
        r == is_sha256_hex(s@),
{
    let c = chars_of(s);
    if c.len() != 64 {
        return false;
    }
    let mut i: usize = 0;
    while i < c.len()
        invariant
            c@ == s@,
            i <= c@.len(),
            forall|j: int| 0 <= j < i ==> is_ascii_hex(#[trigger] c@[j]),
        decreases c@.len() - i,
    {
        let x = c[i];
        if !(('0' <= x && x <= '9') || ('a' <= x && x <= 'f') || ('A' <= x && x <= 'F')) {
            assert(!is_ascii_hex(c@[i as int]));
            return false;
        }
        i = i + 1;
    }
    true
}

/// What a provider compilation leaves for the session to load, in the order
/// the session checks it:
/// - a compiled directory target needs a SHA-256 source identity, which
///   becomes the input identity (refused with `source-provider-identity`);
/// - the first error-severity provider diagnostic refuses the load, and the
///   others are kept;
/// - a check loads no program;
/// - a compile without Workshop text is refused with
///   `source-provider-no-artifact`, keeping the provider's diagnostics.
///
/// A refusal carries its diagnostic and the provider diagnostics kept.
pub fn accept_compilation(
    operation: ProviderOperation,
    target: InputTarget,
    identity: &str,
    input_locale: Option<&str>,
    compilation: SourceCompilation,
) -> (r: Result<ProviderLoad, (Diagnostic, Vec<Diagnostic>)>)
    ensures
        ({
            let ds = compilation.diagnostics@;
            let directory_compile = operation == ProviderOperation::Compile && target
                == InputTarget::Directory;
            if directory_compile && identity_refusal(opt_view(compilation.source_identity)) is Some {
                r matches Err((d, kept)) && plain_diagnostic(
                    d,
                    "source-provider-identity"@,
                    Stage::Frontend,
                    Severity::Error,
                    identity_refusal(opt_view(compilation.source_identity))->0,
                ) && kept@.len() == 0
            } else if has_error(ds) {
                r matches Err((d, kept)) && exists|i: int|
                    first_error_at(ds, i) && d == #[trigger] ds[i] && kept@ == ds.remove(i)
            } else if operation == ProviderOperation::Compile && compilation.workshop_text is None {
                r matches Err((d, kept)) && plain_diagnostic(
                    d,
                    "source-provider-no-artifact"@,
                    Stage::Frontend,
                    Severity::Error,
                    "the source provider returned no canonical Workshop output"@,
                ) && kept@ == ds
            } else {
                r matches Ok(l) && {
                    &&& l.identity@ == (if directory_compile {
                        opt_view(compilation.source_identity)->0
                    } else {
                        identity@
                    })
                    &&& l.diagnostics@ == ds
                    &&& l.locale@ == artifact_locale(
                        opt_view(compilation.locale),
                        match input_locale {
                            Some(x) => Some(x@),
                            None => None,
                        },
                    )
                    &&& match operation {
                        ProviderOperation::Check => l.workshop_text is None && l.provenance is Unmapped,
                        ProviderOperation::Compile => opt_view(l.workshop_text) == opt_view(
                            compilation.workshop_text,
                        ) && (l.provenance is Mapped <==> compilation.provenance is Mapped),
                    }
                }
            }
        }),
{
    let ghost original = compilation;
    let SourceCompilation { workshop_text, locale, provenance, diagnostics, source_identity } =
        compilation;
    let mut new_identity = owned(identity);
    if operation == ProviderOperation::Compile && target == InputTarget::Directory {
        match source_identity {
            None => {
                return Err(
                    (
                        Diagnostic::error(
                            "source-provider-identity",
                            Stage::Frontend,
                            "the source provider returned no source identity for the directory target",
                        ),
                        Vec::new(),
                    ),
                );
            },
            Some(id) => {
                if !sha256_hex_check(id.as_str()) {
                    return Err(
                        (
                            Diagnostic::error(
                                "source-provider-identity",
                                Stage::Frontend,
                                "the source provider returned an invalid SHA-256 source identity",
                            ),
                            Vec::new(),
                        ),
                    );
                }
                new_identity = id;
            },
        }
    }
    let mut i: usize = 0;
    while i < diagnostics.len()
        invariant
            i <= diagnostics@.len(),
            original == compilation,
            diagnostics@ == original.diagnostics@,
            !(operation == ProviderOperation::Compile && target == InputTarget::Directory
                && identity_refusal(opt_view(original.source_identity)) is Some),
            forall|j: int| 0 <= j < i ==> (#[trigger] diagnostics@[j]).severity != Severity::Error,
        decreases diagnostics@.len() - i,
    {
        if diagnostics[i].severity == Severity::Error {
            let ghost all = diagnostics@;
            assert(first_error_at(all, i as int));
            assert(has_error(all));
            let mut kept = diagnostics;
            let first = kept.remove(i);
            assert(first == all[i as int]);
            return Err((first, kept));
        }
        i = i + 1;
    }
    let locale_name = match locale {
        Some(l) => l,
        None => match input_locale {
            Some(l) => owned(l),
            None => owned("en-US"),
        },
    };
    if operation == ProviderOperation::Check {
        return Ok(
            ProviderLoad {
                identity: new_identity,
                diagnostics,
                locale: locale_name,
                workshop_text: None,
                provenance: SourceProvenance::Unmapped,
            },
        );
    }
    match workshop_text {
        None => Err(
            (
                Diagnostic::error(
                    "source-provider-no-artifact",
                    Stage::Frontend,
                    "the source provider returned no canonical Workshop output",
                ),
                diagnostics,
            ),
        ),
        Some(text) => Ok(
            ProviderLoad {
                identity: new_identity,
                diagnostics,
                locale: locale_name,
                workshop_text: Some(text),
                provenance,
            },
        ),
    }
}


// ---------------------------------------------------------------------------
// Routing a load.
// ---------------------------------------------------------------------------

/// Why a provider-backed load without a prior compile is refused.
pub open spec fn check_only_message() -> Seq<char> {
    "provider-backed load requires a canonical compile result; lint, analyze, inspect, and convert are not available on the check-only provider path"@
}

/// The operation a public load runs: the provider backend may only reuse a
/// compile, the native backend checks, the others compile.
pub open spec fn load_operation_outcome(
    backend: SourceBackend,
    loaded: Option<ProviderOperation>,
) -> Result<ProviderOperation, DiagSpec> {
    if backend == SourceBackend::Provider && loaded != Some(ProviderOperation::Compile) {
        Err(("source-provider-unsupported"@, Stage::Frontend, check_only_message()))
    } else if backend == SourceBackend::Native {
        Ok(ProviderOperation::Check)
    } else {
        Ok(ProviderOperation::Compile)
    }
}

/// The operation a load runs, given the backend and the operation of the
/// program loaded so far.
pub fn load_operation(backend: SourceBackend, loaded: Option<ProviderOperation>) -> (r: Result<
    ProviderOperation,
    Diagnostic,
>)
    ensures
        match load_operation_outcome(backend, loaded) {
            Ok(op) => r == Ok::<ProviderOperation, Diagnostic>(op),
            Err(d) => r matches Err(e) && describes(e, d),
        },
{
    let compiled = match loaded {
        Some(ProviderOperation::Compile) => true,
        _ => false,
    };
    if backend == SourceBackend::Provider && !compiled {
        let e = SourceProviderError::Unsupported {
            message: owned(
                "provider-backed load requires a canonical compile result; lint, analyze, inspect, and convert are not available on the check-only provider path",
            ),
        };
        return Err(e.diagnostic());
    }
    if backend == SourceBackend::Native {
        Ok(ProviderOperation::Check)
    } else {
        Ok(ProviderOperation::Compile)
    }
}

/// A program already loaded serves a request unless it came through a
/// provider (a non-native backend and an OPY input) by a different
/// operation; a compile also serves a check.
pub open spec fn reuses(
    backend: SourceBackend,
    loaded_kind: SourceKind,
    loaded: Option<ProviderOperation>,
    requested: ProviderOperation,
) -> bool {
    let is_provider = backend != SourceBackend::Native && loaded_kind == SourceKind::Opy;
    !is_provider || loaded == Some(requested) || (loaded == Some(ProviderOperation::Compile)
        && requested == ProviderOperation::Check)
}

/// Whether the program loaded from an input of `loaded_kind` by `loaded`
/// serves a load for `requested`.
pub fn reuses_loaded(
    backend: SourceBackend,
    loaded_kind: SourceKind,
    loaded: Option<ProviderOperation>,
    requested: ProviderOperation,
) -> (r: bool)
    ensures
        r == reuses(backend, loaded_kind, loaded, requested),
{
    let is_provider = backend != SourceBackend::Native && loaded_kind == SourceKind::Opy;
    let same = match (loaded, requested) {
        (Some(ProviderOperation::Check), ProviderOperation::Check) => true,
        (Some(ProviderOperation::Compile), _) => true,
        _ => false,
    };
    !is_provider || same
}

/// Why a provider-backed load of standard input is refused.
pub open spec fn stdin_entry_message() -> Seq<char> {
    "provider-backed source workflows require an entry path; stdin has no entry identity"@
}

/// The refusal of a provider-backed load of standard input, before the
/// input is read.
pub open spec fn stdin_refusal(backend: SourceBackend, input: InputSpec) -> Option<DiagSpec> {
    if backend == SourceBackend::Provider && input is Stdin {
        Some(("source-provider-unsupported"@, Stage::Frontend, stdin_entry_message()))
    } else {
        None
    }
}

/// Refuses a provider-backed load of standard input.
pub fn check_entry(backend: SourceBackend, input: &InputSpec) -> (r: Result<(), Diagnostic>)
    ensures
        match stdin_refusal(backend, *input) {
            None => r is Ok,
            Some(d) => r matches Err(e) && describes(e, d),
        },
{
    let stdin = match input {
        InputSpec::Stdin => true,
        InputSpec::Path(_) => false,
    };
    if backend == SourceBackend::Provider && stdin {
        let e = SourceProviderError::Unsupported {
            message: owned(
                "provider-backed source workflows require an entry path; stdin has no entry identity",
            ),
        };
        return Err(e.diagnostic());
    }
    Ok(())
}

/// Where a resolved input is loaded from.
#[derive(Debug, Clone, Copy, PartialEq, Eq, Structural)]
pub enum LoadRoute {
    /// Through the source provider.
    Provider,
    /// Parsed as Workshop text.
    Workshop,
}

/// Whether a backend serves an input of `kind` through the source provider.
pub open spec fn provider_backend(backend: SourceBackend, kind: SourceKind) -> bool {
    match backend {
        SourceBackend::Native => false,
        SourceBackend::Provider => true,
        SourceBackend::Auto => kind == SourceKind::Opy,
    }
}

/// The message refusing a non-OPY input on the provider backend.
pub open spec fn provider_kind_message(kind: SourceKind) -> Seq<char> {
    "the provider backend currently supports only OPY input; got '"@ + source_kind_name(kind) + "'"@
}

/// Where a resolved input of `kind` is loaded from, or why it cannot be:
/// OSTW and in-process OPY have no shipped provider, the provider backend
/// takes only OPY, the protocol representation is retired, and an
/// undetected kind must be named.
pub open spec fn load_route_outcome(backend: SourceBackend, kind: SourceKind) -> Result<
    LoadRoute,
    DiagSpec,
> {
    if provider_backend(backend, kind) && kind == SourceKind::Ostw {
        Err(provider_unavailable())
    } else if backend == SourceBackend::Provider && kind != SourceKind::Opy {
        Err(("source-provider-kind"@, Stage::Discovery, provider_kind_message(kind)))
    } else if kind == SourceKind::Ostw {
        Err(provider_unavailable())
    } else if provider_backend(backend, kind) {
        Ok(LoadRoute::Provider)
    } else {
        match kind {
            SourceKind::Workshop => Ok(LoadRoute::Workshop),
            SourceKind::Protocol => Err(
                (
                    "input-kind-unsupported"@,
                    Stage::Discovery,
                    "the retired protocol Workshop representation is not a canonical Program input"@,
                ),
            ),
            SourceKind::Opy => Err(provider_unavailable()),
            _ => Err(
                (
                    "input-kind-unknown"@,
                    Stage::Discovery,
                    "input kind could not be detected; pass `--kind opy|ostw|workshop|protocol`"@,
                ),
            ),
        }
    }
}

/// Where a resolved input of `kind` is loaded from on `backend`.
pub fn load_route(backend: SourceBackend, kind: SourceKind) -> (r: Result<LoadRoute, Diagnostic>)
    ensures
        match load_route_outcome(backend, kind) {
            Ok(route) => r == Ok::<LoadRoute, Diagnostic>(route),
            Err(d) => r matches Err(e) && describes(e, d),
        },
{
    let provider = match backend {
        SourceBackend::Native => false,
        SourceBackend::Provider => true,
        SourceBackend::Auto => kind == SourceKind::Opy,
    };
    if provider && kind == SourceKind::Ostw {
        return Err(provider_unavailable_diagnostic());
    }
    if backend == SourceBackend::Provider && kind != SourceKind::Opy {
        let mut m = owned("the provider backend currently supports only OPY input; got '");
        m.append(kind.as_str());
        m.append("'");
        return Err(Diagnostic::error("source-provider-kind", Stage::Discovery, m.as_str()));
    }
    if kind == SourceKind::Ostw {
        return Err(provider_unavailable_diagnostic());
    }
    if provider {
        return Ok(LoadRoute::Provider);
    }
    match kind {
        SourceKind::Workshop => Ok(LoadRoute::Workshop),
        SourceKind::Protocol => Err(
            Diagnostic::error(
                "input-kind-unsupported",
                Stage::Discovery,
                "the retired protocol Workshop representation is not a canonical Program input",
            ),
        ),
        SourceKind::Opy => Err(provider_unavailable_diagnostic()),
        _ => Err(
            Diagnostic::error(
                "input-kind-unknown",
                Stage::Discovery,
                "input kind could not be detected; pass `--kind opy|ostw|workshop|protocol`",
            ),
        ),
    }
}


/// The provider target of a resolved OPY input: its path (`<stdin>` without
/// one) as a file or directory entry against the invocation directory, with
/// the input's root as project root. Other kinds have no provider language.
pub fn provider_target(input: &ResolvedInput) -> (r: Result<SourceTarget, Diagnostic>)
    ensures
        match r {
            Ok(t) => {
                &&& input.kind == SourceKind::Opy
                &&& t.language == SourceLanguage::Opy
                &&& t.entry@ == resolved_entry(
                    match input.path {
                        Some(p) => p@,
                        None => "<stdin>"@,
                    },
                    input.cwd@,
                )
                &&& t.kind == (match input.target {
                    InputTarget::File => SourceTargetKind::File,
                    InputTarget::Directory => SourceTargetKind::Directory,
                })
                &&& t.cwd@ == input.cwd@
                &&& t.project_root matches Some(root) && root@ == input.root@
            },
            Err(e) => input.kind != SourceKind::Opy && describes(
                e,
                ("source-provider-kind"@, Stage::Discovery, provider_kind_message(input.kind)),
            ),
        },
{
    if input.kind != SourceKind::Opy {
        let mut m = owned("the provider backend currently supports only OPY input; got '");
        m.append(input.kind.as_str());
        m.append("'");
        return Err(Diagnostic::error("source-provider-kind", Stage::Discovery, m.as_str()));
    }
    let entry = match &input.path {
        Some(p) => copy_string(p),
        None => owned("<stdin>"),
    };
    let target = match input.target {
        InputTarget::File => SourceTarget::new(SourceLanguage::Opy, entry.as_str(), input.cwd.as_str()),
        InputTarget::Directory => SourceTarget::directory(
            SourceLanguage::Opy,
            entry.as_str(),
            input.cwd.as_str(),
        ),
    };
    Ok(target.with_project_root(copy_string(&input.root)))
}

} // verus!
