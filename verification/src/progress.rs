//! Transport-neutral workflow progress events.
//!
//! The driver reports semantic workflow boundaries without terminal strings,
//! timing, or presentation policy; consumers may observe these events
//! independently.

use vstd::prelude::*;

verus! {

/// A real orchestration phase exposed to interested consumers.
#[derive(Clone, Copy, Debug, Eq, PartialEq, Structural)]
pub enum ProgressPhase {
    /// Resolve the input path/stdin and detect its source kind.
    InputResolution,
    /// Load a multi-file project boundary.
    ProjectLoading,
    /// Parse source or protocol input.
    Parsing,
    /// Validate a parsed model.
    Validation,
    /// Lower a validated model into the shared representation.
    Lowering,
    /// Run semantic queries or analysis.
    SemanticAnalysis,
    /// Execute configured lint rules.
    Linting,
    /// Emit compiled Workshop text.
    Emission,
    /// Reconstruct a source-language project.
    Conversion,
}

/// The unit associated with optional bounded phase metadata.
#[derive(Clone, Copy, Debug, Eq, PartialEq, Structural)]
pub enum ProgressUnit {
    Files,
    Rules,
}

/// A phase transition emitted by a compiler session.
#[derive(Clone, Copy, Debug, Eq, PartialEq, Structural)]
pub struct ProgressEvent {
    pub phase: ProgressPhase,
    pub count: Option<usize>,
    pub unit: Option<ProgressUnit>,
}

impl ProgressEvent {
    /// A phase transition without bounded metadata.
    pub fn new(phase: ProgressPhase) -> (e: ProgressEvent)
        ensures
            e.phase == phase,
            e.count is None,
            e.unit is None,
    {
        ProgressEvent { phase, count: None, unit: None }
    }

    /// A phase transition over `count` items of `unit`.
    pub fn with_count(phase: ProgressPhase, count: usize, unit: ProgressUnit) -> (e: ProgressEvent)
        ensures
            e.phase == phase,
            e.count == Some(count),
            e.unit == Some(unit),
    {
        ProgressEvent { phase, count: Some(count), unit: Some(unit) }
    }
}

/// Receives semantic workflow phase transitions from a compiler session.
pub trait ProgressObserver {
    fn on_progress(&self, event: ProgressEvent);
}

} // verus!
