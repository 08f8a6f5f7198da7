//! Command result envelopes and exit code conventions.

use vstd::prelude::*;

use crate::diag::{Diagnostic, Severity, Stage};
use crate::text::{owned, str_eq};

pub mod exit;

verus! {

/// The driver version and result contract reported with every envelope.
#[derive(Debug, Clone)]
pub struct VersionInfo {
    pub version: String,
    pub contract: String,
}

pub const RESULT_CONTRACT: &'static str = "wright-result/v1";

pub const DRIVER_VERSION: &'static str = "0.1.0";

/// A typed command result with its diagnostics and exit code.
#[derive(Debug, Clone)]
pub struct Envelope<T> {
    pub wright: VersionInfo,
    pub command: String,
    pub ok: bool,
    pub exit: u8,
    pub diagnostics: Vec<Diagnostic>,
    pub result: T,
}

/// Whether an error diagnostic maps to the "unsupported" exit code.
pub open spec fn is_unsupported_error(d: Diagnostic) -> bool {
    ||| d.stage == Stage::Reconstruction
    ||| d.code@ == "adapter-stdin-unsupported"@
    ||| d.code@ == "source-provider-unsupported"@
}

/// The exit code a diagnostic list maps to: the first error that is internal
/// (4) or unsupported (3) decides; otherwise any error gives 1, and no error
/// gives 0.
pub open spec fn exit_code_of(ds: Seq<Diagnostic>) -> u8
    decreases ds.len(),
{
    if ds.len() == 0 {
        exit::SUCCESS
    } else {
        let d = ds[0];
        let rest = exit_code_of(ds.drop_first());
        if d.severity != Severity::Error {
            rest
        } else if d.stage == Stage::Internal {
            exit::INTERNAL
        } else if is_unsupported_error(d) {
            exit::UNSUPPORTED
        } else if rest == exit::SUCCESS {
            exit::SOURCE_ERROR
        } else {
            rest
        }
    }
}

/// Whether any diagnostic is an error.
pub open spec fn has_error_in(ds: Seq<Diagnostic>) -> bool {
    exists|i: int| 0 <= i < ds.len() && ds[i].severity == Severity::Error
}

/// The exit code is 0 exactly when no diagnostic is an error.
pub proof fn lemma_exit_code_success_iff_no_error(ds: Seq<Diagnostic>)
    ensures
        (exit_code_of(ds) == exit::SUCCESS) == !has_error_in(ds),
    decreases ds.len(),
{
    if ds.len() > 0 {
        lemma_exit_code_success_iff_no_error(ds.drop_first());
        if has_error_in(ds.drop_first()) {
            let i = choose|i: int| 0 <= i < ds.drop_first().len() && ds.drop_first()[i].severity
                == Severity::Error;
            assert(ds[i + 1].severity == Severity::Error);
        }
        if ds[0].severity != Severity::Error && has_error_in(ds) {
            let i = choose|i: int| 0 <= i < ds.len() && ds[i].severity == Severity::Error;
            assert(ds.drop_first()[i - 1].severity == Severity::Error);
        }
    }
}

pub fn exit_code_from(diagnostics: &[Diagnostic]) -> (code: u8)
    ensures
        code == exit_code_of(diagnostics@),
{
    let mut has_source_error = false;
    let mut i: usize = 0;
    assert(diagnostics@.skip(0) =~= diagnostics@);
    while i < diagnostics.len()
        invariant
            i <= diagnostics@.len(),
            exit_code_of(diagnostics@) == (if has_source_error && exit_code_of(
                diagnostics@.skip(i as int),
            ) == exit::SUCCESS {
                exit::SOURCE_ERROR
            } else {
                exit_code_of(diagnostics@.skip(i as int))
            }),
        decreases diagnostics@.len() - i,
    {
        let d = &diagnostics[i];
        assert(diagnostics@.skip(i as int).drop_first() =~= diagnostics@.skip(i + 1));
        assert(diagnostics@.skip(i as int)[0] == diagnostics@[i as int]);
        if d.severity == Severity::Error {
            if d.stage == Stage::Internal {
                return exit::INTERNAL;
            }
            if d.stage == Stage::Reconstruction || str_eq(
                d.code.as_str(),
                "adapter-stdin-unsupported",
            ) || str_eq(d.code.as_str(), "source-provider-unsupported") {
                return exit::UNSUPPORTED;
            }
            has_source_error = true;
        }
        i = i + 1;
    }
    if has_source_error {
        exit::SOURCE_ERROR
    } else {
        exit::SUCCESS
    }
}

#[derive(Debug, Clone)]
pub struct CompiledOutput {
    pub text: String,
    pub sha256: String,
    pub locale: String,
    pub written_to: String,
    pub input_identity: String,
}

#[derive(Debug, Clone, Default)]
pub struct CompileResult {
    pub output: Option<CompiledOutput>,
}

#[derive(Debug, Clone, Default)]
pub struct CheckResult {}

/// The source language a Workshop program is reconstructed into.
#[derive(Debug, Clone, Copy, PartialEq, Eq, Structural, Default)]
pub enum ConvertTarget {
    #[default]
    Opy,
    Ostw,
}

/// The canonical spelling of a conversion target.
pub open spec fn convert_target_name(t: ConvertTarget) -> Seq<char> {
    match t {
        ConvertTarget::Opy => "opy"@,
        ConvertTarget::Ostw => "ostw"@,
    }
}

/// The conversion target a spelling names.
pub open spec fn convert_target_named(name: Seq<char>) -> Option<ConvertTarget> {
    if name == "opy"@ {
        Some(ConvertTarget::Opy)
    } else if name == "ostw"@ {
        Some(ConvertTarget::Ostw)
    } else {
        None
    }
}

impl ConvertTarget {
    pub fn as_str(self) -> (r: &'static str)
        ensures
            r@ == convert_target_name(self),
    {
        match self {
            ConvertTarget::Opy => "opy",
            ConvertTarget::Ostw => "ostw",
        }
    }

    pub fn parse(name: &str) -> (r: Option<ConvertTarget>)
        ensures
            r == convert_target_named(name@),
    {
        if str_eq(name, "opy") {
            Some(ConvertTarget::Opy)
        } else if str_eq(name, "ostw") {
            Some(ConvertTarget::Ostw)
        } else {
            None
        }
    }
}

/// Parsing the spelling of a conversion target gives the target back.
pub proof fn lemma_convert_target_round_trip(t: ConvertTarget)
    ensures
        convert_target_named(convert_target_name(t)) == Some(t),
{
    reveal_strlit("opy");
    reveal_strlit("ostw");
    assert("opy"@.len() != "ostw"@.len());
}

#[derive(Debug, Clone, Default)]
pub struct ConvertResult {
    pub target: ConvertTarget,
    pub text: String,
    pub sha256: String,
}

pub fn version_info() -> (v: VersionInfo)
    ensures
        v.version@ == DRIVER_VERSION@,
        v.contract@ == RESULT_CONTRACT@,
{
    VersionInfo { version: owned(DRIVER_VERSION), contract: owned(RESULT_CONTRACT) }
}

} // verus!
