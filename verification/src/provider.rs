//! The in-process language-provider contract and its diagnostic shape.

use vstd::prelude::*;

use crate::text::owned;

verus! {

#[derive(Debug, Clone, PartialEq, Eq)]
pub struct ProviderError {
    pub code: String,
    pub message: String,
}

impl ProviderError {
    pub fn new(code: &str, message: &str) -> (e: ProviderError)
        ensures
            e.code@ == code@,
            e.message@ == message@,
    {
        ProviderError { code: owned(code), message: owned(message) }
    }

    /// The error as one line: the code, a colon and a space, the message.
    pub fn to_string(&self) -> (r: String)
        ensures
            r@ == self.code@ + ": "@ + self.message@,
    {
        let mut r = self.code.clone();
        r.append(": ");
        r.append(self.message.as_str());
        proof {
            reveal_strlit(": ");
        }
        r
    }
}

/// A language provider checks one source text at a path.
pub trait LanguageProvider {
    fn check(&self, source: &str, path: &str) -> Result<Vec<Diagnostic>, ProviderError>;
}

#[derive(Debug, Clone, Copy, PartialEq, Eq, Structural)]
pub enum Severity {
    Error,
    Warning,
    Info,
}

/// How completely a construct is supported.
#[derive(Debug, Clone, Copy, PartialEq, Eq, Structural)]
pub enum Status {
    Supported,
    Partial,
    Unsupported,
}

#[derive(Debug, Clone, PartialEq, Eq)]
pub struct SourceSpan {
    pub file: String,
    pub start_line: u32,
    pub start_col: u32,
    pub end_line: u32,
    pub end_col: u32,
}

#[derive(Debug, Clone, PartialEq, Eq)]
pub struct Diagnostic {
    pub code: String,
    pub severity: Severity,
    pub status: Status,
    pub span: SourceSpan,
    pub message: String,
}

} // verus!
