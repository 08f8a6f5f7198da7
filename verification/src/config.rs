//! Session configuration: the input, its declared source kind and the output
//! format.

use vstd::prelude::*;

use crate::source_provider::SourceBackend;
use crate::text::str_eq;

verus! {

/// The declared (or auto-detected) source kind of an input.
#[derive(Debug, Clone, Copy, PartialEq, Eq, Structural)]
pub enum SourceKind {
    Auto,
    Opy,
    Ostw,
    Workshop,
    Protocol,
}

/// The canonical spelling of a source kind.
pub open spec fn source_kind_name(k: SourceKind) -> Seq<char> {
    match k {
        SourceKind::Auto => "auto"@,
        SourceKind::Opy => "opy"@,
        SourceKind::Ostw => "ostw"@,
        SourceKind::Workshop => "workshop"@,
        SourceKind::Protocol => "protocol"@,
    }
}

/// The source kind a spelling names, with its accepted aliases.
pub open spec fn source_kind_named(name: Seq<char>) -> Option<SourceKind> {
    if name == "auto"@ {
        Some(SourceKind::Auto)
    } else if name == "opy"@ {
        Some(SourceKind::Opy)
    } else if name == "ostw"@ {
        Some(SourceKind::Ostw)
    } else if name == "workshop"@ || name == "ws"@ {
        Some(SourceKind::Workshop)
    } else if name == "protocol"@ || name == "hir"@ || name == "json"@ {
        Some(SourceKind::Protocol)
    } else {
        None
    }
}

impl SourceKind {
    pub fn as_str(self) -> (r: &'static str)
        ensures
            r@ == source_kind_name(self),
    {
        match self {
            SourceKind::Auto => "auto",
            SourceKind::Opy => "opy",
            SourceKind::Ostw => "ostw",
            SourceKind::Workshop => "workshop",
            SourceKind::Protocol => "protocol",
        }
    }

    pub fn parse(name: &str) -> (r: Option<SourceKind>)
        ensures
            r == source_kind_named(name@),
    {
        if str_eq(name, "auto") {
            Some(SourceKind::Auto)
        } else if str_eq(name, "opy") {
            Some(SourceKind::Opy)
        } else if str_eq(name, "ostw") {
            Some(SourceKind::Ostw)
        } else if str_eq(name, "workshop") || str_eq(name, "ws") {
            Some(SourceKind::Workshop)
        } else if str_eq(name, "protocol") || str_eq(name, "hir") || str_eq(name, "json") {
            Some(SourceKind::Protocol)
        } else {
            None
        }
    }
}

/// Parsing the canonical spelling of a source kind gives the kind back.
pub proof fn lemma_source_kind_round_trip(k: SourceKind)
    ensures
        source_kind_named(source_kind_name(k)) == Some(k),
{
    reveal_strlit("auto");
    reveal_strlit("opy");
    reveal_strlit("ostw");
    reveal_strlit("workshop");
    reveal_strlit("ws");
    reveal_strlit("protocol");
    reveal_strlit("hir");
    reveal_strlit("json");
    assert("opy"@ != "auto"@) by {
        assert("opy"@.len() != "auto"@.len());
    }
    assert("ostw"@ != "auto"@) by {
        assert("ostw"@[0] != "auto"@[0]);
    }
    assert("ostw"@ != "opy"@) by {
        assert("ostw"@.len() != "opy"@.len());
    }
    assert("workshop"@ != "auto"@ && "workshop"@ != "opy"@ && "workshop"@ != "ostw"@) by {
        assert("workshop"@.len() == 8);
    }
    assert("protocol"@ != "auto"@ && "protocol"@ != "opy"@ && "protocol"@ != "ostw"@
        && "protocol"@ != "ws"@) by {
        assert("protocol"@.len() == 8);
    }
    assert("protocol"@ != "workshop"@) by {
        assert("protocol"@[0] != "workshop"@[0]);
    }
}

/// How results are rendered.
#[derive(Debug, Clone, Copy, PartialEq, Eq, Structural)]
pub enum OutputFormat {
    Text,
    Json,
}

/// The canonical spelling of an output format.
pub open spec fn output_format_name(f: OutputFormat) -> Seq<char> {
    match f {
        OutputFormat::Text => "text"@,
        OutputFormat::Json => "json"@,
    }
}

/// The output format a spelling names, with its accepted aliases.
pub open spec fn output_format_named(name: Seq<char>) -> Option<OutputFormat> {
    if name == "text"@ || name == "human"@ {
        Some(OutputFormat::Text)
    } else if name == "json"@ || name == "machine"@ {
        Some(OutputFormat::Json)
    } else {
        None
    }
}

impl OutputFormat {
    pub fn as_str(self) -> (r: &'static str)
        ensures
            r@ == output_format_name(self),
    {
        match self {
            OutputFormat::Text => "text",
            OutputFormat::Json => "json",
        }
    }

    pub fn parse(name: &str) -> (r: Option<OutputFormat>)
        ensures
            r == output_format_named(name@),
    {
        if str_eq(name, "text") || str_eq(name, "human") {
            Some(OutputFormat::Text)
        } else if str_eq(name, "json") || str_eq(name, "machine") {
            Some(OutputFormat::Json)
        } else {
            None
        }
    }
}

/// Parsing the canonical spelling of an output format gives the format back.
pub proof fn lemma_output_format_round_trip(f: OutputFormat)
    ensures
        output_format_named(output_format_name(f)) == Some(f),
{
    reveal_strlit("text");
    reveal_strlit("human");
    reveal_strlit("json");
    reveal_strlit("machine");
    assert("json"@[0] != "text"@[0]);
}

/// Where the input comes from: a path, or standard input.
#[derive(Debug, Clone, PartialEq, Eq)]
pub enum InputSpec {
    Path(String),
    Stdin,
}

impl InputSpec {
    pub fn path(&self) -> (r: Option<&String>)
        ensures
            match self {
                InputSpec::Path(p) => r == Some(p),
                InputSpec::Stdin => r is None,
            },
    {
        match self {
            InputSpec::Path(path) => Some(path),
            InputSpec::Stdin => None,
        }
    }
}

/// One session's configuration, in the plain values the driver reads.
#[derive(Debug, Clone)]
pub struct SessionConfig {
    pub input: InputSpec,
    pub kind: SourceKind,
    pub source_backend: SourceBackend,
    pub locale: Option<String>,
    pub root: Option<String>,
    pub output: Option<String>,
    pub format: OutputFormat,
    pub lint_rule_paths: Vec<String>,
    pub opy_provider: crate::opy_provider::OpyProviderConfig,
}

impl SessionConfig {
    /// The default configuration: stdin input, auto-detected kind, native
    /// backend, text output.
    pub fn new() -> (c: SessionConfig)
        ensures
            c.input is Stdin,
            c.kind == SourceKind::Auto,
            c.source_backend == SourceBackend::Native,
            c.locale is None,
            c.root is None,
            c.output is None,
            c.format == OutputFormat::Text,
            c.lint_rule_paths@.len() == 0,
            c.opy_provider.executable is None,
            c.opy_provider.store_dir is None,
    {
        SessionConfig {
            input: InputSpec::Stdin,
            kind: SourceKind::Auto,
            source_backend: SourceBackend::Native,
            locale: None,
            root: None,
            output: None,
            format: OutputFormat::Text,
            lint_rule_paths: Vec::new(),
            opy_provider: crate::opy_provider::OpyProviderConfig::new(),
        }
    }

    /// The default configuration over a path input.
    pub fn from_path(path: &str) -> (c: SessionConfig)
        ensures
            c.input is Path,
            c.input->Path_0@ == path@,
            c.kind == SourceKind::Auto,
            c.source_backend == SourceBackend::Native,
            c.locale is None,
            c.root is None,
            c.output is None,
            c.format == OutputFormat::Text,
    {
        let mut c = SessionConfig::new();
        c.input = InputSpec::Path(crate::text::owned(path));
        c
    }
}

impl Default for SessionConfig {
    fn default() -> (c: SessionConfig)
        ensures
            c.input is Stdin,
            c.kind == SourceKind::Auto,
            c.source_backend == SourceBackend::Native,
            c.locale is None,
            c.root is None,
            c.output is None,
            c.format == OutputFormat::Text,
    {
        SessionConfig::new()
    }
}

} // verus!
