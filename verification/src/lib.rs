//! Wright's verified tooling core: source edits, document state, settings
//! tables, and the structured contracts shared by the command-line driver and
//! the language service.

use vstd::prelude::*;

pub mod artifact;
pub mod config;
pub mod diag;
pub mod document;
pub mod edit;
pub mod hir;
pub mod input;
pub mod ir;
pub mod language;
pub mod lower;
pub mod lpp;
pub mod opy;
pub mod opy_provider;
pub mod paths;
pub mod progress;
pub mod provider;
pub mod provider_edit;
pub mod result;
pub mod service;
pub mod session;
pub mod settings;
pub mod source_provider;
pub mod text;
pub mod wir;
pub mod workshop_compat;
pub mod workshop_provider;

verus! {

/// The identity of a text: the SHA-256 hex digest of its UTF-8 bytes.
pub open spec fn identity_of(text: Seq<char>) -> Seq<char> {
    input::sha256_hex_of(vstd::utf8::encode_utf8(text))
}

/// A deterministic SHA-256 identity for an input or artifact.
pub fn input_identity(text: &str) -> (r: String)
    ensures
        r@ == identity_of(text@),
        r@.len() == 64,
{
    input::sha256_hex(text.as_bytes())
}

} // verus!
