//! The plain contracts of the session-aware tool service: its structured
//! error and its capability/version contract.

use vstd::prelude::*;

verus! {

/// A structured tool error.
#[derive(Debug, Clone, PartialEq, Eq)]
pub struct ToolErrorInfo {
    pub code: String,
    pub message: String,
}

/// The capability/version contract of the service.
#[derive(Debug, Clone, PartialEq, Eq)]
pub struct Capabilities {
    pub name: String,
    pub version: String,
    pub contract: String,
    pub operations: Vec<String>,
    pub languages: Vec<String>,
    pub profiles: Vec<String>,
}

} // verus!
