//! Distribution state of the first-party OPY provider: which executable is
//! selected, which host targets have releases, how release versions and
//! artifact names are spelled, and how a downloaded archive is checked.

use vstd::prelude::*;

use vstd::string::StringExecFns;
use flate2::read::GzDecoder;
use std::io::{Read, Result as IoResult};
use tar::Archive;

use crate::opy_provider::ArchiveStep::{Body, Header, Open, PathName};

use crate::input::{lower_hex, sha256_digest_of};
use crate::paths::{join, join_path};
use crate::text::{ascii_lower, chars_of, is_white_space, owned, str_eq};

verus! {

broadcast use vstd::string::group_string_axioms;

/// Settings for first-party OPY provider resolution.
#[derive(Debug, Clone, Default)]
pub struct OpyProviderConfig {
    /// An explicitly selected local executable. It has highest precedence.
    pub executable: Option<String>,
    /// Override the per-user provider store, primarily for embedding/tests.
    pub store_dir: Option<String>,
}

impl OpyProviderConfig {
    /// No explicit executable and the default store.
    pub fn new() -> (c: OpyProviderConfig)
        ensures
            c.executable is None,
            c.store_dir is None,
    {
        OpyProviderConfig { executable: None, store_dir: None }
    }

    /// Select a local provider executable without enabling first-party
    /// download behavior.
    pub fn with_executable(path: &str) -> (c: OpyProviderConfig)
        ensures
            c.executable is Some,
            c.executable->0@ == path@,
            c.store_dir is None,
    {
        OpyProviderConfig { executable: Some(owned(path)), store_dir: None }
    }

    /// The store this configuration selects: its own, else `default_store`.
    pub open spec fn store_of(&self, default_store: Seq<char>) -> Seq<char> {
        match self.store_dir {
            Some(s) => s@,
            None => default_store,
        }
    }

    /// The resolver over the selected store, for the host's own target and
    /// the first-party release endpoints.
    pub fn resolver(&self, default_store: &str) -> (r: OpyProviderResolver)
        ensures
            r.store() == self.store_of(default_store@),
            r.target_override() is None,
            r.api() == default_api_url(),
            r.base() == default_base_url(),
    {
        match &self.store_dir {
            Some(s) => OpyProviderResolver::new(s.as_str()),
            None => OpyProviderResolver::new(default_store),
        }
    }

    /// Starts resolving with this configuration: its explicit executable
    /// first, then the store's active provider, then a first-party bootstrap.
    /// Returns the resolver that drives the remaining steps.
    pub fn resolve(&self, default_store: &str, host: &HostPlatform) -> (r: (
        OpyProviderResolver,
        ResolverPhase,
        ResolverAction,
    ))
        ensures
            r.0.store() == self.store_of(default_store@),
            r.0.target_override() is None,
            r.0.api() == default_api_url(),
            r.0.base() == default_base_url(),
            r.0.resolve_start(
                match self.executable {
                    Some(e) => Some(e@),
                    None => None,
                },
                *host,
                r.1,
                r.2,
            ),
    {
        let resolver = self.resolver(default_store);
        let explicit: Option<&str> = match &self.executable {
            Some(e) => Some(e.as_str()),
            None => None,
        };
        let (phase, action) = resolver.resolve(explicit, host);
        (resolver, phase, action)
    }

    /// Starts an explicit install or update of `version` (the latest release
    /// when none is given) into the selected store.
    pub fn update(&self, default_store: &str, version: Option<&str>, host: &HostPlatform) -> (r: (
        OpyProviderResolver,
        ResolverPhase,
        ResolverAction,
    ))
        ensures
            r.0.store() == self.store_of(default_store@),
            r.0.target_override() is None,
            r.0.api() == default_api_url(),
            r.0.base() == default_base_url(),
            r.0.update_start(opt_seq(version), *host, r.1, r.2),
    {
        let resolver = self.resolver(default_store);
        let (phase, action) = resolver.update(version, host);
        (resolver, phase, action)
    }
}

/// A resolved executable ready to register as the OPY language provider.
#[derive(Debug, Clone, PartialEq, Eq)]
pub struct ResolvedOpyProvider {
    /// The local executable path.
    pub executable: String,
    /// The installed release version, if this came from the first-party
    /// store. Explicit local providers have no release version.
    pub version: Option<String>,
}

/// A machine-readable provider distribution failure.
#[derive(Debug, Clone, PartialEq, Eq)]
pub enum OpyProviderError {
    Missing(String),
    UnsupportedPlatform(String),
    Offline(String),
    Download(String),
    Integrity(String),
    Install(String),
}

/// The stable machine-readable code of a failure.
pub open spec fn opy_error_code(e: OpyProviderError) -> Seq<char> {
    match e {
        OpyProviderError::Missing(_) => "provider-missing"@,
        OpyProviderError::UnsupportedPlatform(_) => "provider-unsupported-platform"@,
        OpyProviderError::Offline(_) => "provider-offline"@,
        OpyProviderError::Download(_) => "provider-download"@,
        OpyProviderError::Integrity(_) => "provider-integrity"@,
        OpyProviderError::Install(_) => "provider-install"@,
    }
}

/// The message of a failure.
pub open spec fn opy_error_message(e: OpyProviderError) -> Seq<char> {
    match e {
        OpyProviderError::Missing(m) => m@,
        OpyProviderError::UnsupportedPlatform(m) => m@,
        OpyProviderError::Offline(m) => m@,
        OpyProviderError::Download(m) => m@,
        OpyProviderError::Integrity(m) => m@,
        OpyProviderError::Install(m) => m@,
    }
}

impl OpyProviderError {
    /// Stable machine-readable error code.
    pub fn code(&self) -> (r: &'static str)
        ensures
            r@ == opy_error_code(*self),
    {
        match self {
            OpyProviderError::Missing(_) => "provider-missing",
            OpyProviderError::UnsupportedPlatform(_) => "provider-unsupported-platform",
            OpyProviderError::Offline(_) => "provider-offline",
            OpyProviderError::Download(_) => "provider-download",
            OpyProviderError::Integrity(_) => "provider-integrity",
            OpyProviderError::Install(_) => "provider-install",
        }
    }

    /// The CLI exit code for this failure: an unsupported platform is
    /// "unsupported", every other failure is internal.
    pub fn exit_code(&self) -> (r: u8)
        ensures
            r == (if self is UnsupportedPlatform {
                crate::result::exit::UNSUPPORTED
            } else {
                crate::result::exit::INTERNAL
            }),
    {
        match self {
            OpyProviderError::UnsupportedPlatform(_) => crate::result::exit::UNSUPPORTED,
            _ => crate::result::exit::INTERNAL,
        }
    }

    /// The failure's message.
    pub fn message(&self) -> (r: &String)
        ensures
            r@ == opy_error_message(*self),
    {
        match self {
            OpyProviderError::Missing(m) => m,
            OpyProviderError::UnsupportedPlatform(m) => m,
            OpyProviderError::Offline(m) => m,
            OpyProviderError::Download(m) => m,
            OpyProviderError::Integrity(m) => m,
            OpyProviderError::Install(m) => m,
        }
    }
}

// ---------------------------------------------------------------------------
// Targets, versions and artifact names.
// ---------------------------------------------------------------------------

/// The release target of a host operating system and architecture.
pub open spec fn target_of(os: Seq<char>, arch: Seq<char>) -> Option<Seq<char>> {
    if os == "linux"@ && arch == "x86_64"@ {
        Some("x86_64-unknown-linux-gnu"@)
    } else if os == "macos"@ && arch == "x86_64"@ {
        Some("x86_64-apple-darwin"@)
    } else if os == "macos"@ && arch == "aarch64"@ {
        Some("aarch64-apple-darwin"@)
    } else {
        None
    }
}

pub open spec fn unsupported_host_message(os: Seq<char>, arch: Seq<char>) -> Seq<char> {
    "unsupported OPY provider target "@ + os + "/"@ + arch
        + "; supported targets are linux/x86_64 and darwin x86_64/aarch64"@
}

/// The release target of a host platform.
pub fn target_for(os: &str, arch: &str) -> (r: Result<String, OpyProviderError>)
    ensures
        match target_of(os@, arch@) {
            Some(t) => r matches Ok(x) && x@ == t,
            None => r matches Err(OpyProviderError::UnsupportedPlatform(m)) && m@
                == unsupported_host_message(os@, arch@),
        },
{
    if str_eq(os, "linux") && str_eq(arch, "x86_64") {
        Ok(owned("x86_64-unknown-linux-gnu"))
    } else if str_eq(os, "macos") && str_eq(arch, "x86_64") {
        Ok(owned("x86_64-apple-darwin"))
    } else if str_eq(os, "macos") && str_eq(arch, "aarch64") {
        Ok(owned("aarch64-apple-darwin"))
    } else {
        let mut m = String::new();
        m.append("unsupported OPY provider target ");
        m.append(os);
        m.append("/");
        m.append(arch);
        m.append("; supported targets are linux/x86_64 and darwin x86_64/aarch64");
        Err(OpyProviderError::UnsupportedPlatform(m))
    }
}

/// The targets first-party releases are published for.
pub open spec fn is_supported_target(t: Seq<char>) -> bool {
    t == "x86_64-unknown-linux-gnu"@ || t == "x86_64-apple-darwin"@ || t
        == "aarch64-apple-darwin"@
}

pub open spec fn unsupported_target_message(t: Seq<char>) -> Seq<char> {
    "unsupported OPY provider target '"@ + t + "'"@
}

fn supported_target(target: String) -> (r: Result<String, OpyProviderError>)
    ensures
        is_supported_target(target@) ==> (r matches Ok(x) && x@ == target@),
        !is_supported_target(target@) ==> (r matches Err(OpyProviderError::UnsupportedPlatform(m))
            && m@ == unsupported_target_message(target@)),
{
    let t = target.as_str();
    if str_eq(t, "x86_64-unknown-linux-gnu") || str_eq(t, "x86_64-apple-darwin") || str_eq(
        t,
        "aarch64-apple-darwin",
    ) {
        Ok(target)
    } else {
        let mut m = String::new();
        m.append("unsupported OPY provider target '");
        m.append(t);
        m.append("'");
        Err(OpyProviderError::UnsupportedPlatform(m))
    }
}

/// `s` without its leading `'v'` characters.
pub open spec fn strip_leading_v(s: Seq<char>) -> Seq<char>
    decreases s.len(),
{
    if s.len() > 0 && s[0] == 'v' {
        strip_leading_v(s.drop_first())
    } else {
        s
    }
}

pub open spec fn is_ascii_digit(c: char) -> bool {
    '0' <= c && c <= '9'
}

/// A non-empty run of ASCII digits.
pub open spec fn is_digits(s: Seq<char>) -> bool {
    s.len() > 0 && forall|i: int| 0 <= i < s.len() ==> #[trigger] is_ascii_digit(s[i])
}

/// `X.Y.Z` with three non-empty runs of ASCII digits.
pub open spec fn is_release_version(s: Seq<char>) -> bool {
    exists|a: int, b: int|
        0 < a && a + 1 < b && b + 1 < s.len() && s[a] == '.' && s[b] == '.' && is_digits(
            s.subrange(0, a),
        ) && is_digits(s.subrange(a + 1, b)) && is_digits(s.subrange(b + 1, s.len() as int))
}

pub open spec fn invalid_version_message(v: Seq<char>) -> Seq<char> {
    "invalid OPY provider release version '"@ + v + "' (expected X.Y.Z)"@
}

/// A release version without its leading `v`s, which must be `X.Y.Z`.
pub open spec fn normalized_version(version: Seq<char>) -> Result<Seq<char>, Seq<char>> {
    let v = strip_leading_v(version);
    if is_release_version(v) {
        Ok(v)
    } else {
        Err(invalid_version_message(v))
    }
}

fn strip_v(s: &[char]) -> (r: Vec<char>)
    ensures
        r@ == strip_leading_v(s@),
{
    let mut i: usize = 0;
    assert(s@.skip(0) =~= s@);
    while i < s.len() && s[i] == 'v'
        invariant
            i <= s@.len(),
            strip_leading_v(s@) == strip_leading_v(s@.skip(i as int)),
        decreases s@.len() - i,
    {
        assert(s@.skip(i as int).drop_first() =~= s@.skip(i + 1));
        i = i + 1;
    }
    let mut r: Vec<char> = Vec::new();
    crate::edit::push_slice(&mut r, s, i, s.len());
    assert(s@.subrange(i as int, s@.len() as int) =~= s@.skip(i as int));
    r
}

/// Whether `s[from..to]` is a non-empty run of ASCII digits.
fn digits_between(s: &[char], from: usize, to: usize) -> (r: bool)
    requires
        from <= to <= s@.len(),
    ensures
        r == is_digits(s@.subrange(from as int, to as int)),
{
    if from == to {
        return false;
    }
    let mut i = from;
    while i < to
        invariant
            from <= i <= to,
            to <= s@.len(),
            forall|k: int| from <= k < i ==> is_ascii_digit(s@[k]),
        decreases to - i,
    {
        if !('0' <= s[i] && s[i] <= '9') {
            assert(!is_ascii_digit(s@.subrange(from as int, to as int)[i - from]));
            return false;
        }
        i = i + 1;
    }
    assert forall|k: int| 0 <= k < s@.subrange(from as int, to as int).len() implies #[trigger] is_ascii_digit(
        s@.subrange(from as int, to as int)[k],
    ) by {
        assert(s@.subrange(from as int, to as int)[k] == s@[from + k]);
    }
    true
}

/// Whether a version is `X.Y.Z`.
fn release_version_shape(v: &[char]) -> (r: bool)
    ensures
        r == is_release_version(v@),
{
    let mut dots: Vec<usize> = Vec::new();
    let mut i: usize = 0;
    while i < v.len()
        invariant
            i <= v@.len(),
            forall|k: int| 0 <= k < dots@.len() ==> dots@[k] < i && v@[dots@[k] as int] == '.',
            forall|k: int, l: int| 0 <= k < l < dots@.len() ==> dots@[k] < dots@[l],
            forall|j: int|
                0 <= j < i && v@[j] == '.' ==> exists|k: int|
                    0 <= k < dots@.len() && dots@[k] == j,
        decreases v@.len() - i,
    {
        let ghost before = dots@;
        if v[i] == '.' {
            dots.push(i);
            proof {
                assert forall|j: int| 0 <= j < i + 1 && v@[j] == '.' implies exists|k: int|
                    0 <= k < dots@.len() && dots@[k] == j by {
                    if j == i {
                        assert(dots@[dots@.len() - 1] == j);
                    } else {
                        let k = choose|k: int| 0 <= k < before.len() && before[k] == j;
                        assert(dots@[k] == j);
                    }
                }
            }
        }
        i = i + 1;
    }
    if dots.len() != 2 {
        proof {
            if is_release_version(v@) {
                let (a, b) = choose|a: int, b: int|
                    0 < a && a + 1 < b && b + 1 < v@.len() && v@[a] == '.' && v@[b] == '.'
                        && is_digits(v@.subrange(0, a)) && is_digits(v@.subrange(a + 1, b))
                        && is_digits(v@.subrange(b + 1, v@.len() as int));
                let ka = choose|k: int| 0 <= k < dots@.len() && dots@[k] == a;
                let kb = choose|k: int| 0 <= k < dots@.len() && dots@[k] == b;
                if dots@.len() > 2 {
                    let third = if ka != 0 && kb != 0 {
                        0
                    } else if ka != 1 && kb != 1 {
                        1
                    } else {
                        2
                    };
                    let j = dots@[third] as int;
                    assert(v@[j] == '.');
                    assert(j != a && j != b);
                    if j < a {
                        assert(v@.subrange(0, a)[j] == v@[j]);
                        assert(!is_ascii_digit(v@.subrange(0, a)[j]));
                    } else if j < b {
                        assert(v@.subrange(a + 1, b)[j - a - 1] == v@[j]);
                        assert(!is_ascii_digit(v@.subrange(a + 1, b)[j - a - 1]));
                    } else {
                        assert(v@.subrange(b + 1, v@.len() as int)[j - b - 1] == v@[j]);
                        assert(!is_ascii_digit(v@.subrange(b + 1, v@.len() as int)[j - b - 1]));
                    }
                }
            }
        }
        return false;
    }
    let a = dots[0];
    let b = dots[1];
    let ok = digits_between(v, 0, a) && digits_between(v, a + 1, b) && digits_between(
        v,
        b + 1,
        v.len(),
    );
    proof {
        if is_release_version(v@) && !ok {
            let (a2, b2) = choose|a2: int, b2: int|
                0 < a2 && a2 + 1 < b2 && b2 + 1 < v@.len() && v@[a2] == '.' && v@[b2] == '.'
                    && is_digits(v@.subrange(0, a2)) && is_digits(v@.subrange(a2 + 1, b2))
                    && is_digits(v@.subrange(b2 + 1, v@.len() as int));
            let ka = choose|k: int| 0 <= k < dots@.len() && dots@[k] == a2;
            let kb = choose|k: int| 0 <= k < dots@.len() && dots@[k] == b2;
            assert(a2 == a as int);
            assert(b2 == b as int);
        }
    }
    ok
}

/// Normalizes a release version: leading `v`s are dropped and the rest
/// must be `X.Y.Z`.
pub fn normalize_version(version: &str) -> (r: Result<String, OpyProviderError>)
    ensures
        match normalized_version(version@) {
            Ok(v) => r matches Ok(x) && x@ == v,
            Err(m) => r matches Err(OpyProviderError::Download(x)) && x@ == m,
        },
{
    let c = chars_of(version);
    let v = strip_v(c.as_slice());
    let text = crate::text::string_from_chars(v.as_slice());
    if !release_version_shape(v.as_slice()) {
        let mut m = String::new();
        m.append("invalid OPY provider release version '");
        m.append(text.as_str());
        m.append("' (expected X.Y.Z)");
        return Err(OpyProviderError::Download(m));
    }
    Ok(text)
}

// ---------------------------------------------------------------------------
// Checksums.
// ---------------------------------------------------------------------------

/// The index at or after `i` where a run of non-white-space characters of
/// `s` ends.
pub open spec fn field_end(s: Seq<char>, i: int) -> int
    decreases s.len() - i,
{
    if i >= s.len() {
        s.len() as int
    } else if is_white_space(s[i]) {
        i
    } else {
        field_end(s, i + 1)
    }
}

/// The first white-space-separated field of a text
/// (`str::split_whitespace().next()`).
pub open spec fn first_field(s: Seq<char>) -> Option<Seq<char>> {
    let t = crate::text::trim_start(s);
    if t.len() == 0 {
        None
    } else {
        Some(t.take(field_end(t, 0)))
    }
}

pub open spec fn is_ascii_hex(c: char) -> bool {
    ('0' <= c && c <= '9') || ('a' <= c && c <= 'f') || ('A' <= c && c <= 'F')
}

/// Sixty-four ASCII hexadecimal digits.
pub open spec fn is_sha256_hex(p: Seq<char>) -> bool {
    p.len() == 64 && forall|i: int| 0 <= i < p.len() ==> #[trigger] is_ascii_hex(p[i])
}

/// The outcome of checking an archive against a published checksum file:
/// the file's first field must be a SHA-256 hex digest equal, ignoring ASCII
/// case, to the archive's digest.
pub open spec fn checksum_outcome(archive: Seq<u8>, file: Seq<char>, name: Seq<char>) -> Result<
    (),
    Seq<char>,
> {
    match first_field(file) {
        None => Err("empty checksum file for "@ + name),
        Some(p) => if !is_sha256_hex(p) {
            Err("invalid SHA-256 checksum for "@ + name)
        } else {
            let actual = lower_hex(sha256_digest_of(archive));
            if ascii_lower(p) == ascii_lower(actual) {
                Ok(())
            } else {
                Err(
                    "SHA-256 verification failed for "@ + name + " (published "@ + p + ", got "@
                        + actual + "); the active provider was not changed"@,
                )
            }
        },
    }
}

fn first_field_exec(s: &[char]) -> (r: Option<Vec<char>>)
    ensures
        match first_field(s@) {
            Some(f) => r matches Some(v) && v@ == f,
            None => r is None,
        },
{
    let t = crate::text::trim_start_chars(s);
    if t.len() == 0 {
        return None;
    }
    let mut r: Vec<char> = Vec::new();
    let mut i: usize = 0;
    while i < t.len() && !crate::text::is_whitespace(t[i])
        invariant
            i <= t@.len(),
            field_end(t@, 0) == field_end(t@, i as int),
            r@ == t@.take(i as int),
        decreases t@.len() - i,
    {
        assert(t@.take(i + 1) =~= t@.take(i as int).push(t@[i as int]));
        r.push(t[i]);
        i = i + 1;
    }
    Some(r)
}

/// Checks a downloaded archive against its published checksum file.
pub fn verify_checksum(archive: &[u8], checksum_file: &str, archive_name: &str) -> (r: Result<
    (),
    OpyProviderError,
>)
    ensures
        match checksum_outcome(archive@, checksum_file@, archive_name@) {
            Ok(_) => r is Ok,
            Err(m) => r matches Err(OpyProviderError::Integrity(x)) && x@ == m,
        },
{
    let c = chars_of(checksum_file);
    let published = match first_field_exec(c.as_slice()) {
        Some(p) => p,
        None => {
            let mut m = String::new();
            m.append("empty checksum file for ");
            m.append(archive_name);
            return Err(OpyProviderError::Integrity(m));
        },
    };
    let mut valid = published.len() == 64;
    let mut i: usize = 0;
    while valid && i < published.len()
        invariant
            i <= published@.len(),
            valid ==> published@.len() == 64,
            valid ==> forall|k: int| 0 <= k < i ==> is_ascii_hex(published@[k]),
            !valid ==> !is_sha256_hex(published@),
        decreases published@.len() - i,
    {
        let ch = published[i];
        if !(('0' <= ch && ch <= '9') || ('a' <= ch && ch <= 'f') || ('A' <= ch && ch <= 'F')) {
            assert(!is_ascii_hex(published@[i as int]));
            valid = false;
        }
        i = i + 1;
    }
    if !valid {
        let mut m = String::new();
        m.append("invalid SHA-256 checksum for ");
        m.append(archive_name);
        return Err(OpyProviderError::Integrity(m));
    }
    assert(is_sha256_hex(published@));
    let actual = crate::input::sha256_hex(archive);
    let ac = chars_of(actual.as_str());
    let lp = crate::text::ascii_lower_chars(published.as_slice());
    let la = crate::text::ascii_lower_chars(ac.as_slice());
    if !crate::text::chars_eq(lp.as_slice(), la.as_slice()) {
        let p = crate::text::string_from_chars(published.as_slice());
        let mut m = String::new();
        m.append("SHA-256 verification failed for ");
        m.append(archive_name);
        m.append(" (published ");
        m.append(p.as_str());
        m.append(", got ");
        m.append(actual.as_str());
        m.append("); the active provider was not changed");
        return Err(OpyProviderError::Integrity(m));
    }
    Ok(())
}

// ---------------------------------------------------------------------------
// Store layout and release URLs.
// ---------------------------------------------------------------------------

/// The executable of an installed provider version for a target.
pub open spec fn provider_path_of(store: Seq<char>, version: Seq<char>, target: Seq<char>) -> Seq<
    char,
> {
    join_path(join_path(join_path(store, version), target), "opy-provider"@)
}

/// The pointer file naming the active provider version.
pub open spec fn active_path_of(store: Seq<char>) -> Seq<char> {
    join_path(store, "active"@)
}

/// The release archive of a version for a target.
pub open spec fn archive_name_of(version: Seq<char>, target: Seq<char>) -> Seq<char> {
    "opy-provider-"@ + version + "-"@ + target + ".tar.gz"@
}

/// `s` without its trailing `'/'` characters.
pub open spec fn trim_trailing_slashes(s: Seq<char>) -> Seq<char>
    decreases s.len(),
{
    if s.len() > 0 && s.last() == '/' {
        trim_trailing_slashes(s.drop_last())
    } else {
        s
    }
}

/// The download URL of a release archive.
pub open spec fn archive_url_of(base: Seq<char>, version: Seq<char>, target: Seq<char>) -> Seq<char> {
    trim_trailing_slashes(base) + "/v"@ + version + "/"@ + archive_name_of(version, target)
}

/// The download URL of a release archive's checksum file.
pub open spec fn checksum_url_of(base: Seq<char>, version: Seq<char>, target: Seq<char>) -> Seq<
    char,
> {
    archive_url_of(base, version, target) + ".sha256"@
}

fn archive_name(version: &str, target: &str) -> (r: String)
    ensures
        r@ == archive_name_of(version@, target@),
{
    let mut m = String::new();
    m.append("opy-provider-");
    m.append(version);
    m.append("-");
    m.append(target);
    m.append(".tar.gz");
    m
}

fn trim_slashes(s: &str) -> (r: String)
    ensures
        r@ == trim_trailing_slashes(s@),
{
    let c = chars_of(s);
    let mut n = c.len();
    assert(c@.take(n as int) =~= c@);
    while n > 0 && c[n - 1] == '/'
        invariant
            n <= c@.len(),
            trim_trailing_slashes(c@) == trim_trailing_slashes(c@.take(n as int)),
        decreases n,
    {
        assert(c@.take(n as int).drop_last() =~= c@.take(n - 1));
        n = n - 1;
    }
    let mut out: Vec<char> = Vec::new();
    crate::edit::push_slice(&mut out, c.as_slice(), 0, n);
    assert(c@.subrange(0, n as int) =~= c@.take(n as int));
    crate::text::string_from_chars(out.as_slice())
}

fn archive_url(base: &str, version: &str, target: &str) -> (r: String)
    ensures
        r@ == archive_url_of(base@, version@, target@),
{
    let mut m = trim_slashes(base);
    m.append("/v");
    m.append(version);
    m.append("/");
    let name = archive_name(version, target);
    m.append(name.as_str());
    m
}

fn provider_path(store: &str, version: &str, target: &str) -> (r: String)
    ensures
        r@ == provider_path_of(store@, version@, target@),
{
    let a = crate::paths::join(store, version);
    let b = crate::paths::join(a.as_str(), target);
    crate::paths::join(b.as_str(), "opy-provider")
}

/// The default provider store: `providers/opy` under the provider data
/// directory when one is configured; otherwise `wright/providers/opy` under
/// the platform's data directory (`~/Library/Application Support` on macOS,
/// `%APPDATA%` on Windows, `$XDG_DATA_HOME` or `~/.local` elsewhere), or
/// under `.` when that is unknown.
pub open spec fn default_store_of(
    os: Seq<char>,
    provider_data_dir: Option<Seq<char>>,
    home: Option<Seq<char>>,
    appdata: Option<Seq<char>>,
    xdg_data_home: Option<Seq<char>>,
) -> Seq<char> {
    match provider_data_dir {
        Some(p) => join_path(join_path(p, "providers"@), "opy"@),
        None => {
            let base = if os == "macos"@ {
                match home {
                    Some(h) => Some(join_path(join_path(h, "Library"@), "Application Support"@)),
                    None => None,
                }
            } else if os == "windows"@ {
                appdata
            } else {
                match xdg_data_home {
                    Some(x) => Some(x),
                    None => match home {
                        Some(h) => Some(join_path(h, ".local"@)),
                        None => None,
                    },
                }
            };
            let b = match base {
                Some(b) => b,
                None => "."@,
            };
            join_path(join_path(join_path(b, "wright"@), "providers"@), "opy"@)
        },
    }
}

pub open spec fn opt_seq(o: Option<&str>) -> Option<Seq<char>> {
    match o {
        Some(x) => Some(x@),
        None => None,
    }
}

/// The default provider store from the platform and its environment.
pub fn default_store_dir(
    os: &str,
    provider_data_dir: Option<&str>,
    home: Option<&str>,
    appdata: Option<&str>,
    xdg_data_home: Option<&str>,
) -> (r: String)
    ensures
        r@ == default_store_of(
            os@,
            opt_seq(provider_data_dir),
            opt_seq(home),
            opt_seq(appdata),
            opt_seq(xdg_data_home),
        ),
{
    if let Some(p) = provider_data_dir {
        let a = join(p, "providers");
        return join(a.as_str(), "opy");
    }
    let base: Option<String> = if str_eq(os, "macos") {
        match home {
            Some(h) => {
                let a = join(h, "Library");
                Some(join(a.as_str(), "Application Support"))
            },
            None => None,
        }
    } else if str_eq(os, "windows") {
        match appdata {
            Some(a) => Some(owned(a)),
            None => None,
        }
    } else {
        match xdg_data_home {
            Some(x) => Some(owned(x)),
            None => match home {
                Some(h) => Some(join(h, ".local")),
                None => None,
            },
        }
    };
    let b = match base {
        Some(b) => b,
        None => owned("."),
    };
    let w = join(b.as_str(), "wright");
    let p = join(w.as_str(), "providers");
    join(p.as_str(), "opy")
}

// ---------------------------------------------------------------------------
// Downloads.
// ---------------------------------------------------------------------------

/// `e` has code `code` and message `message`.
pub open spec fn is_error(e: OpyProviderError, code: Seq<char>, message: Seq<char>) -> bool {
    opy_error_code(e) == code && opy_error_message(e) == message
}

/// How a release download failed, as the transport reported it.
#[derive(Debug, Clone)]
pub enum FetchFailure {
    /// The server answered with a non-success HTTP status.
    Status(u16),
    /// The release source could not be reached.
    Transport(String),
    /// The response body could not be read.
    Read(String),
    /// The response body exceeds the 128 MiB artifact limit.
    TooLarge,
}

/// The code and message a download failure of `url` reports.
pub open spec fn fetch_failure_of(url: Seq<char>, f: FetchFailure) -> (Seq<char>, Seq<char>) {
    match f {
        FetchFailure::Status(s) => (
            "provider-download"@,
            "GET "@ + url + " failed with HTTP "@ + crate::text::decimal(s as nat),
        ),
        FetchFailure::Transport(e) => (
            "provider-offline"@,
            "cannot reach OPY provider release source "@ + url + ": "@ + e@,
        ),
        FetchFailure::Read(e) => (
            "provider-download"@,
            "cannot read response from "@ + url + ": "@ + e@,
        ),
        FetchFailure::TooLarge => (
            "provider-download"@,
            "response from "@ + url + " exceeds the 128 MiB provider artifact limit"@,
        ),
    }
}

/// The provider failure a failed download of `url` reports: a transport
/// failure means the release source is offline; anything else is a
/// download failure.
pub fn fetch_failure(url: &str, failure: FetchFailure) -> (e: OpyProviderError)
    ensures
        is_error(e, fetch_failure_of(url@, failure).0, fetch_failure_of(url@, failure).1),
{
    let mut m = String::new();
    match failure {
        FetchFailure::Status(status) => {
            m.append("GET ");
            m.append(url);
            m.append(" failed with HTTP ");
            let d = crate::text::decimal_string(status as u64);
            m.append(d.as_str());
            OpyProviderError::Download(m)
        },
        FetchFailure::Transport(error) => {
            m.append("cannot reach OPY provider release source ");
            m.append(url);
            m.append(": ");
            m.append(error.as_str());
            OpyProviderError::Offline(m)
        },
        FetchFailure::Read(error) => {
            m.append("cannot read response from ");
            m.append(url);
            m.append(": ");
            m.append(error.as_str());
            OpyProviderError::Download(m)
        },
        FetchFailure::TooLarge => {
            m.append("response from ");
            m.append(url);
            m.append(" exceeds the 128 MiB provider artifact limit");
            OpyProviderError::Download(m)
        },
    }
}

/// The largest provider artifact a download accepts: 128 MiB.
pub const MAX_DOWNLOAD_BYTES: u64 = 134_217_728;

/// What a download of `url` answered: a non-success status fails; a body
/// read fails with its error; a body longer than [`MAX_DOWNLOAD_BYTES`]
/// fails as too large; otherwise the body is the artifact. `body` is what
/// was read, at most one byte past the limit.
pub fn accept_download(url: &str, status: u16, body: Result<Vec<u8>, String>) -> (r: Result<
    Vec<u8>,
    OpyProviderError,
>)
    ensures
        match body {
            _ if !(200 <= status < 300) => r matches Err(e) && is_error(
                e,
                fetch_failure_of(url@, FetchFailure::Status(status)).0,
                fetch_failure_of(url@, FetchFailure::Status(status)).1,
            ),
            Err(m) => r matches Err(e) && is_error(
                e,
                fetch_failure_of(url@, FetchFailure::Read(m)).0,
                fetch_failure_of(url@, FetchFailure::Read(m)).1,
            ),
            Ok(b) => if b@.len() > MAX_DOWNLOAD_BYTES {
                r matches Err(e) && is_error(
                    e,
                    fetch_failure_of(url@, FetchFailure::TooLarge).0,
                    fetch_failure_of(url@, FetchFailure::TooLarge).1,
                )
            } else {
                r matches Ok(x) && x@ == b@
            },
        },
{
    if !(200 <= status && status < 300) {
        return Err(fetch_failure(url, FetchFailure::Status(status)));
    }
    match body {
        Err(m) => Err(fetch_failure(url, FetchFailure::Read(m))),
        Ok(b) => {
            if b.len() as u64 > MAX_DOWNLOAD_BYTES {
                Err(fetch_failure(url, FetchFailure::TooLarge))
            } else {
                Ok(b)
            }
        },
    }
}

/// The message `String::from_utf8` reports for invalid UTF-8.
pub uninterp spec fn utf8_error_text_of(bytes: Seq<u8>) -> Seq<char>;

/// `String::from_utf8`: the text of valid UTF-8 bytes, or the error's
/// message (its `Display`) for invalid ones. The contract states when it
/// succeeds and what it decodes; the message is named as a function of the
/// bytes.
#[verifier::external_body]
fn decode_utf8_bytes(bytes: Vec<u8>) -> (r: Result<String, String>)
    ensures
        r is Ok <==> vstd::utf8::valid_utf8(bytes@),
        r matches Ok(s) ==> s@ == vstd::utf8::decode_utf8(bytes@),
        r matches Err(m) ==> m@ == utf8_error_text_of(bytes@),
{
    String::from_utf8(bytes).map_err(|e| e.to_string())
}

/// The text of a downloaded response.
pub open spec fn response_text(url: Seq<char>, bytes: Seq<u8>) -> Result<Seq<char>, Seq<char>> {
    if vstd::utf8::valid_utf8(bytes) {
        Ok(vstd::utf8::decode_utf8(bytes))
    } else {
        Err("cannot decode response from "@ + url + ": "@ + utf8_error_text_of(bytes))
    }
}

fn decode_response(url: &str, bytes: Vec<u8>) -> (r: Result<String, OpyProviderError>)
    ensures
        match response_text(url@, bytes@) {
            Ok(t) => r matches Ok(s) && s@ == t,
            Err(m) => r matches Err(e) && is_error(e, "provider-download"@, m),
        },
{
    match decode_utf8_bytes(bytes) {
        Ok(s) => Ok(s),
        Err(error) => {
            let mut m = String::new();
            m.append("cannot decode response from ");
            m.append(url);
            m.append(": ");
            m.append(error.as_str());
            Err(OpyProviderError::Download(m))
        },
    }
}

/// The `tag_name` string of a release response parsed as JSON
/// (`serde_json::from_str` into a `Value`, then `get("tag_name")` as a
/// string): the parse error's message, or the tag if it is present.
pub uninterp spec fn release_tag_of(body: Seq<char>) -> Result<Option<Seq<char>>, Seq<char>>;

/// The release tag of a release response: `serde_json::from_str` into a
/// `serde_json::Value`, then its `tag_name` member when it is a string. The
/// outcome is named as a function of the body; the JSON grammar is not
/// stated.
#[verifier::external_body]
fn release_tag(body: &str) -> (r: Result<Option<String>, String>)
    ensures
        match release_tag_of(body@) {
            Ok(Some(t)) => r matches Ok(Some(x)) && x@ == t,
            Ok(None) => r matches Ok(None),
            Err(m) => r matches Err(x) && x@ == m,
        },
{
    match serde_json::from_str::<serde_json::Value>(body) {
        Ok(value) => Ok(value.get("tag_name").and_then(serde_json::Value::as_str).map(
            str::to_string,
        )),
        Err(error) => Err(error.to_string()),
    }
}

/// The latest release version a release response announces.
pub open spec fn latest_version_of(api_url: Seq<char>, body: Seq<char>) -> Result<Seq<char>, Seq<
    char,
>> {
    match release_tag_of(body) {
        Err(e) => Err("cannot parse the OPY release response from "@ + api_url + ": "@ + e),
        Ok(None) => Err("the OPY release response from "@ + api_url + " has no tag_name"@),
        Ok(Some(tag)) => normalized_version(tag),
    }
}

fn latest_version(api_url: &str, body: &str) -> (r: Result<String, OpyProviderError>)
    ensures
        match latest_version_of(api_url@, body@) {
            Ok(v) => r matches Ok(x) && x@ == v,
            Err(m) => r matches Err(e) && is_error(e, "provider-download"@, m),
        },
{
    match release_tag(body) {
        Err(error) => {
            let mut m = String::new();
            m.append("cannot parse the OPY release response from ");
            m.append(api_url);
            m.append(": ");
            m.append(error.as_str());
            Err(OpyProviderError::Download(m))
        },
        Ok(None) => {
            let mut m = String::new();
            m.append("the OPY release response from ");
            m.append(api_url);
            m.append(" has no tag_name");
            Err(OpyProviderError::Download(m))
        },
        Ok(Some(tag)) => normalize_version(tag.as_str()),
    }
}

// ---------------------------------------------------------------------------
// Resolution and installation.
// ---------------------------------------------------------------------------

/// The release metadata endpoint of first-party OPY provider releases.
pub open spec fn default_api_url() -> Seq<char> {
    "https://api.github.com/repos/wrightkit/opy-rs/releases/latest"@
}

/// The download base of first-party OPY provider releases.
pub open spec fn default_base_url() -> Seq<char> {
    "https://github.com/wrightkit/opy-rs/releases/download"@
}

/// The host a resolver runs on.
#[derive(Debug, Clone)]
pub struct HostPlatform {
    pub os: String,
    pub arch: String,
}

/// First-party OPY provider resolver and installer: the provider store,
/// an optional target override, and the release endpoints.
#[derive(Debug, Clone)]
pub struct OpyProviderResolver {
    store_dir: String,
    target: Option<String>,
    api_url: String,
    base_url: String,
}

/// What became of reading the active-provider pointer file.
#[derive(Debug, Clone)]
pub enum PointerRead {
    /// The file does not exist.
    Absent,
    /// The file's text.
    Text(String),
    /// The file exists but could not be read; the I/O error's message.
    Unreadable(String),
}

/// What the caller reports back after performing a resolver action.
#[derive(Debug)]
pub enum ResolverEvent {
    /// Whether the checked path is an executable file.
    Executable(bool),
    /// The active pointer, as read.
    Pointer(PointerRead),
    /// The fetched response body, or the download failure.
    Fetched(Result<Vec<u8>, OpyProviderError>),
    /// Whether installing and activating the archive succeeded.
    Installed(Result<(), OpyProviderError>),
}

/// Where a resolution stands.
#[derive(Debug, Clone)]
pub enum ResolverPhase {
    /// Waiting to learn whether the explicit executable is executable.
    Explicit { path: String },
    /// Waiting for the active pointer.
    ActivePointer { target: String },
    /// Waiting to learn whether the active version's executable is executable.
    ActiveExecutable { target: String, version: String },
    /// Waiting for the release metadata.
    LatestRelease { target: String },
    /// Waiting for the release archive.
    Archive { target: String, version: String },
    /// Waiting for the archive's checksum file.
    Checksum { target: String, version: String, archive: Vec<u8> },
    /// Waiting for the verified archive to be installed and activated.
    Installing { target: String, version: String },
    /// Done.
    Finished,
}

/// What the caller performs next.
#[derive(Debug)]
pub enum ResolverAction {
    /// Check whether a path is an executable file.
    CheckExecutable(String),
    /// Read the active pointer file at a path.
    ReadPointer(String),
    /// GET a URL.
    Fetch(String),
    /// Install a verified archive into the store and make it active.
    Install { target: String, version: String, archive: Vec<u8> },
    /// Resolution is over.
    Finish(Result<ResolvedOpyProvider, OpyProviderError>),
}

/// The message of an explicit executable that cannot be run.
pub open spec fn missing_message(path: Seq<char>) -> Seq<char> {
    "explicit OPY provider '"@ + path + "' does not exist or is not executable"@
}

/// The event a phase waits for.
pub open spec fn expects(phase: ResolverPhase, event: ResolverEvent) -> bool {
    match phase {
        ResolverPhase::Explicit { .. } => event is Executable,
        ResolverPhase::ActivePointer { .. } => event is Pointer,
        ResolverPhase::ActiveExecutable { .. } => event is Executable,
        ResolverPhase::LatestRelease { .. } => event is Fetched,
        ResolverPhase::Archive { .. } => event is Fetched,
        ResolverPhase::Checksum { .. } => event is Fetched,
        ResolverPhase::Installing { .. } => event is Installed,
        ResolverPhase::Finished => false,
    }
}

impl ResolverPhase {
    /// Whether this phase waits for `event`.
    pub fn accepts(&self, event: &ResolverEvent) -> (r: bool)
        ensures
            r == expects(*self, *event),
    {
        match self {
            ResolverPhase::Explicit { .. } => matches!(event, ResolverEvent::Executable(_)),
            ResolverPhase::ActivePointer { .. } => matches!(event, ResolverEvent::Pointer(_)),
            ResolverPhase::ActiveExecutable { .. } => matches!(event, ResolverEvent::Executable(_)),
            ResolverPhase::LatestRelease { .. } => matches!(event, ResolverEvent::Fetched(_)),
            ResolverPhase::Archive { .. } => matches!(event, ResolverEvent::Fetched(_)),
            ResolverPhase::Checksum { .. } => matches!(event, ResolverEvent::Fetched(_)),
            ResolverPhase::Installing { .. } => matches!(event, ResolverEvent::Installed(_)),
            ResolverPhase::Finished => false,
        }
    }
}

/// The resolution finishes with provider `executable` at `version`.
pub open spec fn finishes_ok(
    next: ResolverPhase,
    action: ResolverAction,
    executable: Seq<char>,
    version: Option<Seq<char>>,
) -> bool {
    &&& next is Finished
    &&& action matches ResolverAction::Finish(Ok(p))
    &&& p.executable@ == executable
    &&& match (p.version, version) {
        (Some(a), Some(b)) => a@ == b,
        (None, None) => true,
        _ => false,
    }
}

/// The resolution finishes with a failure of code `code` and message `message`.
pub open spec fn finishes_err(
    next: ResolverPhase,
    action: ResolverAction,
    code: Seq<char>,
    message: Seq<char>,
) -> bool {
    &&& next is Finished
    &&& action matches ResolverAction::Finish(Err(e))
    &&& is_error(e, code, message)
}

/// The resolution finishes with exactly the failure `err`.
pub open spec fn finishes_with(next: ResolverPhase, action: ResolverAction, err: OpyProviderError) -> bool {
    &&& next is Finished
    &&& action == ResolverAction::Finish(Err(err))
}

pub open spec fn fetches(action: ResolverAction, url: Seq<char>) -> bool {
    action matches ResolverAction::Fetch(u) && u@ == url
}

impl OpyProviderResolver {
    pub closed spec fn store(&self) -> Seq<char> {
        self.store_dir@
    }

    pub closed spec fn target_override(&self) -> Option<Seq<char>> {
        match self.target {
            Some(t) => Some(t@),
            None => None,
        }
    }

    pub closed spec fn api(&self) -> Seq<char> {
        self.api_url@
    }

    pub closed spec fn base(&self) -> Seq<char> {
        self.base_url@
    }

    /// A resolver over a store, for the host's own target and the
    /// first-party release endpoints.
    pub fn new(store_dir: &str) -> (r: OpyProviderResolver)
        ensures
            r.store() == store_dir@,
            r.target_override() is None,
            r.api() == default_api_url(),
            r.base() == default_base_url(),
    {
        OpyProviderResolver {
            store_dir: owned(store_dir),
            target: None,
            api_url: owned("https://api.github.com/repos/wrightkit/opy-rs/releases/latest"),
            base_url: owned("https://github.com/wrightkit/opy-rs/releases/download"),
        }
    }

    /// Override the target triple.
    pub fn with_target(self, target: &str) -> (r: OpyProviderResolver)
        ensures
            r.store() == self.store(),
            r.target_override() == Some(target@),
            r.api() == self.api(),
            r.base() == self.base(),
    {
        OpyProviderResolver { target: Some(owned(target)), ..self }
    }

    /// Override the release endpoints without changing the artifact layout.
    pub fn with_release_urls(self, api_url: &str, base_url: &str) -> (r: OpyProviderResolver)
        ensures
            r.store() == self.store(),
            r.target_override() == self.target_override(),
            r.api() == api_url@,
            r.base() == base_url@,
    {
        OpyProviderResolver { api_url: owned(api_url), base_url: owned(base_url), ..self }
    }

    /// The provider store directory.
    pub fn store_dir(&self) -> (r: &str)
        ensures
            r@ == self.store(),
    {
        self.store_dir.as_str()
    }

    /// The release target: the override, else the host's; only targets with
    /// first-party releases are accepted.
    pub open spec fn target_outcome(&self, host: HostPlatform) -> Result<Seq<char>, Seq<char>> {
        let t = match self.target_override() {
            Some(t) => Ok(t),
            None => match target_of(host.os@, host.arch@) {
                Some(t) => Ok(t),
                None => Err(unsupported_host_message(host.os@, host.arch@)),
            },
        };
        match t {
            Err(m) => Err(m),
            Ok(t) => if is_supported_target(t) {
                Ok(t)
            } else {
                Err(unsupported_target_message(t))
            },
        }
    }

    fn target(&self, host: &HostPlatform) -> (r: Result<String, OpyProviderError>)
        ensures
            match self.target_outcome(*host) {
                Ok(t) => r matches Ok(x) && x@ == t,
                Err(m) => r matches Err(e) && is_error(e, "provider-unsupported-platform"@, m),
            },
    {
        let t = match &self.target {
            Some(t) => t.clone(),
            None => match target_for(host.os.as_str(), host.arch.as_str()) {
                Ok(t) => t,
                Err(e) => {
                    return Err(e);
                },
            },
        };
        supported_target(t)
    }

    /// How installing a release starts: a requested version is normalized
    /// and its archive fetched; without one, the release metadata is fetched.
    pub open spec fn install_start(
        &self,
        requested: Option<Seq<char>>,
        target: Seq<char>,
        next: ResolverPhase,
        action: ResolverAction,
    ) -> bool {
        match requested {
            None => (next matches ResolverPhase::LatestRelease { target: t } && t@ == target)
                && fetches(action, self.api()),
            Some(v) => match normalized_version(v) {
                Err(m) => finishes_err(next, action, "provider-download"@, m),
                Ok(nv) => (next matches ResolverPhase::Archive { target: t, version: x } && t@
                    == target && x@ == nv) && fetches(action, archive_url_of(self.base(), nv, target)),
            },
        }
    }

    fn install_release(&self, requested: Option<&str>, target: String) -> (r: (
        ResolverPhase,
        ResolverAction,
    ))
        ensures
            self.install_start(opt_seq(requested), target@, r.0, r.1),
    {
        match requested {
            None => {
                let url = self.api_url.clone();
                (ResolverPhase::LatestRelease { target }, ResolverAction::Fetch(url))
            },
            Some(v) => match normalize_version(v) {
                Err(e) => (ResolverPhase::Finished, ResolverAction::Finish(Err(e))),
                Ok(version) => {
                    let url = archive_url(self.base_url.as_str(), version.as_str(), target.as_str());
                    (ResolverPhase::Archive { target, version }, ResolverAction::Fetch(url))
                },
            },
        }
    }

    /// How a resolution starts: an explicit executable is checked; otherwise
    /// the release target is settled and the active pointer read.
    pub open spec fn resolve_start(
        &self,
        explicit: Option<Seq<char>>,
        host: HostPlatform,
        next: ResolverPhase,
        action: ResolverAction,
    ) -> bool {
        match explicit {
            Some(p) => (next matches ResolverPhase::Explicit { path } && path@ == p) && (
            action matches ResolverAction::CheckExecutable(x) && x@ == p),
            None => match self.target_outcome(host) {
                Err(m) => finishes_err(next, action, "provider-unsupported-platform"@, m),
                Ok(t) => (next matches ResolverPhase::ActivePointer { target } && target@ == t) && (
                action matches ResolverAction::ReadPointer(x) && x@ == active_path_of(self.store())),
            },
        }
    }

    /// How an explicit install or update starts.
    pub open spec fn update_start(
        &self,
        requested: Option<Seq<char>>,
        host: HostPlatform,
        next: ResolverPhase,
        action: ResolverAction,
    ) -> bool {
        match self.target_outcome(host) {
            Err(m) => finishes_err(next, action, "provider-unsupported-platform"@, m),
            Ok(t) => self.install_start(requested, t, next, action),
        }
    }

    /// Starts resolving an OPY provider, in precedence order: an explicit
    /// local executable; the active installed provider; a first-party
    /// bootstrap of the latest release.
    pub fn resolve(&self, explicit: Option<&str>, host: &HostPlatform) -> (r: (
        ResolverPhase,
        ResolverAction,
    ))
        ensures
            self.resolve_start(opt_seq(explicit), *host, r.0, r.1),
    {
        if let Some(p) = explicit {
            return (
                ResolverPhase::Explicit { path: owned(p) },
                ResolverAction::CheckExecutable(owned(p)),
            );
        }
        match self.target(host) {
            Err(e) => (ResolverPhase::Finished, ResolverAction::Finish(Err(e))),
            Ok(target) => {
                let pointer = join(self.store_dir.as_str(), "active");
                (ResolverPhase::ActivePointer { target }, ResolverAction::ReadPointer(pointer))
            },
        }
    }

    /// How a resolution moves on from `phase` when the caller reports
    /// `event`.
    pub open spec fn step_spec(
        &self,
        phase: ResolverPhase,
        event: ResolverEvent,
        next: ResolverPhase,
        action: ResolverAction,
    ) -> bool {
        match phase {
            ResolverPhase::Explicit { path } => match event {
                ResolverEvent::Executable(true) => finishes_ok(next, action, path@, None),
                ResolverEvent::Executable(false) => finishes_err(
                    next,
                    action,
                    "provider-missing"@,
                    missing_message(path@),
                ),
                _ => true,
            },
            ResolverPhase::ActivePointer { target } => match event {
                ResolverEvent::Pointer(PointerRead::Absent) => self.install_start(
                    None,
                    target@,
                    next,
                    action,
                ),
                ResolverEvent::Pointer(PointerRead::Unreadable(e)) => finishes_err(
                    next,
                    action,
                    "provider-install"@,
                    "cannot read active OPY provider pointer '"@ + active_path_of(self.store())
                        + "': "@ + e@,
                ),
                ResolverEvent::Pointer(PointerRead::Text(text)) => match normalized_version(
                    crate::text::trim(text@),
                ) {
                    Err(m) => finishes_err(next, action, "provider-download"@, m),
                    Ok(v) => (next matches ResolverPhase::ActiveExecutable { target: t, version: x }
                        && t@ == target@ && x@ == v) && (action matches ResolverAction::CheckExecutable(
                        p,
                    ) && p@ == provider_path_of(self.store(), v, target@)),
                },
                _ => true,
            },
            ResolverPhase::ActiveExecutable { target, version } => match event {
                ResolverEvent::Executable(true) => finishes_ok(
                    next,
                    action,
                    provider_path_of(self.store(), version@, target@),
                    Some(version@),
                ),
                ResolverEvent::Executable(false) => self.install_start(None, target@, next, action),
                _ => true,
            },
            ResolverPhase::LatestRelease { target } => match event {
                ResolverEvent::Fetched(Err(e)) => finishes_with(next, action, e),
                ResolverEvent::Fetched(Ok(bytes)) => match response_text(self.api(), bytes@) {
                    Err(m) => finishes_err(next, action, "provider-download"@, m),
                    Ok(body) => match latest_version_of(self.api(), body) {
                        Err(m) => finishes_err(next, action, "provider-download"@, m),
                        Ok(v) => (next matches ResolverPhase::Archive { target: t, version: x } && t@
                            == target@ && x@ == v) && fetches(
                            action,
                            archive_url_of(self.base(), v, target@),
                        ),
                    },
                },
                _ => true,
            },
            ResolverPhase::Archive { target, version } => match event {
                ResolverEvent::Fetched(Err(e)) => finishes_with(next, action, e),
                ResolverEvent::Fetched(Ok(bytes)) => (next matches ResolverPhase::Checksum {
                    target: t,
                    version: x,
                    archive: a,
                } && t@ == target@ && x@ == version@ && a@ == bytes@) && fetches(
                    action,
                    checksum_url_of(self.base(), version@, target@),
                ),
                _ => true,
            },
            ResolverPhase::Checksum { target, version, archive } => match event {
                ResolverEvent::Fetched(Err(e)) => finishes_with(next, action, e),
                ResolverEvent::Fetched(Ok(bytes)) => match response_text(
                    checksum_url_of(self.base(), version@, target@),
                    bytes@,
                ) {
                    Err(m) => finishes_err(next, action, "provider-download"@, m),
                    Ok(text) => match checksum_outcome(
                        archive@,
                        text,
                        archive_name_of(version@, target@),
                    ) {
                        Err(m) => finishes_err(next, action, "provider-integrity"@, m),
                        Ok(_) => (next matches ResolverPhase::Installing { target: t, version: x }
                            && t@ == target@ && x@ == version@) && (action matches ResolverAction::Install {
                            target: t2,
                            version: x2,
                            archive: a2,
                        } && t2@ == target@ && x2@ == version@ && a2@ == archive@),
                    },
                },
                _ => true,
            },
            ResolverPhase::Installing { target, version } => match event {
                ResolverEvent::Installed(Ok(_)) => finishes_ok(
                    next,
                    action,
                    provider_path_of(self.store(), version@, target@),
                    Some(version@),
                ),
                ResolverEvent::Installed(Err(e)) => finishes_with(next, action, e),
                _ => true,
            },
            ResolverPhase::Finished => true,
        }
    }

    /// Moves a resolution on: `event` reports the outcome of the action that
    /// `phase` waits on.
    pub fn step(&self, phase: ResolverPhase, event: ResolverEvent) -> (r: (
        ResolverPhase,
        ResolverAction,
    ))
        requires
            expects(phase, event),
        ensures
            self.step_spec(phase, event, r.0, r.1),
    {
        match phase {
            ResolverPhase::Explicit { path } => match event {
                ResolverEvent::Executable(true) => (
                    ResolverPhase::Finished,
                    ResolverAction::Finish(Ok(ResolvedOpyProvider { executable: path, version: None })),
                ),
                _ => {
                    let mut m = String::new();
                    m.append("explicit OPY provider '");
                    m.append(path.as_str());
                    m.append("' does not exist or is not executable");
                    (ResolverPhase::Finished, ResolverAction::Finish(Err(OpyProviderError::Missing(m))))
                },
            },
            ResolverPhase::ActivePointer { target } => match event {
                ResolverEvent::Pointer(PointerRead::Absent) => self.install_release(None, target),
                ResolverEvent::Pointer(PointerRead::Unreadable(e)) => {
                    let pointer = join(self.store_dir.as_str(), "active");
                    let mut m = String::new();
                    m.append("cannot read active OPY provider pointer '");
                    m.append(pointer.as_str());
                    m.append("': ");
                    m.append(e.as_str());
                    (ResolverPhase::Finished, ResolverAction::Finish(Err(OpyProviderError::Install(m))))
                },
                ResolverEvent::Pointer(PointerRead::Text(text)) => {
                    let c = chars_of(text.as_str());
                    let trimmed = crate::text::trim_chars(c.as_slice());
                    let t = crate::text::string_from_chars(trimmed.as_slice());
                    match normalize_version(t.as_str()) {
                        Err(e) => (ResolverPhase::Finished, ResolverAction::Finish(Err(e))),
                        Ok(version) => {
                            let path = provider_path(
                                self.store_dir.as_str(),
                                version.as_str(),
                                target.as_str(),
                            );
                            (
                                ResolverPhase::ActiveExecutable { target, version },
                                ResolverAction::CheckExecutable(path),
                            )
                        },
                    }
                },
                _ => (ResolverPhase::Finished, ResolverAction::Fetch(String::new())),
            },
            ResolverPhase::ActiveExecutable { target, version } => match event {
                ResolverEvent::Executable(true) => {
                    let path = provider_path(self.store_dir.as_str(), version.as_str(), target.as_str());
                    (
                        ResolverPhase::Finished,
                        ResolverAction::Finish(
                            Ok(ResolvedOpyProvider { executable: path, version: Some(version) }),
                        ),
                    )
                },
                _ => self.install_release(None, target),
            },
            ResolverPhase::LatestRelease { target } => match event {
                ResolverEvent::Fetched(Err(e)) => (ResolverPhase::Finished, ResolverAction::Finish(Err(e))),
                ResolverEvent::Fetched(Ok(bytes)) => {
                    let body = match decode_response(self.api_url.as_str(), bytes) {
                        Ok(b) => b,
                        Err(e) => {
                            return (ResolverPhase::Finished, ResolverAction::Finish(Err(e)));
                        },
                    };
                    match latest_version(self.api_url.as_str(), body.as_str()) {
                        Err(e) => (ResolverPhase::Finished, ResolverAction::Finish(Err(e))),
                        Ok(version) => {
                            let url = archive_url(
                                self.base_url.as_str(),
                                version.as_str(),
                                target.as_str(),
                            );
                            (ResolverPhase::Archive { target, version }, ResolverAction::Fetch(url))
                        },
                    }
                },
                _ => (ResolverPhase::Finished, ResolverAction::Fetch(String::new())),
            },
            ResolverPhase::Archive { target, version } => match event {
                ResolverEvent::Fetched(Err(e)) => (ResolverPhase::Finished, ResolverAction::Finish(Err(e))),
                ResolverEvent::Fetched(Ok(archive)) => {
                    let mut url = archive_url(self.base_url.as_str(), version.as_str(), target.as_str());
                    url.append(".sha256");
                    (ResolverPhase::Checksum { target, version, archive }, ResolverAction::Fetch(url))
                },
                _ => (ResolverPhase::Finished, ResolverAction::Fetch(String::new())),
            },
            ResolverPhase::Checksum { target, version, archive } => match event {
                ResolverEvent::Fetched(Err(e)) => (ResolverPhase::Finished, ResolverAction::Finish(Err(e))),
                ResolverEvent::Fetched(Ok(bytes)) => {
                    let mut url = archive_url(self.base_url.as_str(), version.as_str(), target.as_str());
                    url.append(".sha256");
                    let text = match decode_response(url.as_str(), bytes) {
                        Ok(t) => t,
                        Err(e) => {
                            return (ResolverPhase::Finished, ResolverAction::Finish(Err(e)));
                        },
                    };
                    let name = archive_name(version.as_str(), target.as_str());
                    match verify_checksum(archive.as_slice(), text.as_str(), name.as_str()) {
                        Err(e) => (ResolverPhase::Finished, ResolverAction::Finish(Err(e))),
                        Ok(()) => {
                            let t2 = target.clone();
                            let v2 = version.clone();
                            (
                                ResolverPhase::Installing { target, version },
                                ResolverAction::Install { target: t2, version: v2, archive },
                            )
                        },
                    }
                },
                _ => (ResolverPhase::Finished, ResolverAction::Fetch(String::new())),
            },
            ResolverPhase::Installing { target, version } => match event {
                ResolverEvent::Installed(Ok(())) => {
                    let path = provider_path(self.store_dir.as_str(), version.as_str(), target.as_str());
                    (
                        ResolverPhase::Finished,
                        ResolverAction::Finish(
                            Ok(ResolvedOpyProvider { executable: path, version: Some(version) }),
                        ),
                    )
                },
                ResolverEvent::Installed(Err(e)) => (ResolverPhase::Finished, ResolverAction::Finish(Err(e))),
                _ => (ResolverPhase::Finished, ResolverAction::Fetch(String::new())),
            },
            ResolverPhase::Finished => (ResolverPhase::Finished, ResolverAction::Fetch(String::new())),
        }
    }

    /// Starts an explicit install or update of a provider version (the
    /// latest release when none is requested).
    pub fn update(&self, requested_version: Option<&str>, host: &HostPlatform) -> (r: (
        ResolverPhase,
        ResolverAction,
    ))
        ensures
            self.update_start(opt_seq(requested_version), *host, r.0, r.1),
    {
        match self.target(host) {
            Err(e) => (ResolverPhase::Finished, ResolverAction::Finish(Err(e))),
            Ok(target) => self.install_release(requested_version, target),
        }
    }
}

// ---------------------------------------------------------------------------
// Installing a verified archive.
// ---------------------------------------------------------------------------

/// The single top-level directory a release archive holds.
pub open spec fn archive_root_of(version: Seq<char>, target: Seq<char>) -> Seq<char> {
    "opy-provider-"@ + version + "-"@ + target
}

/// What an archive entry is, from its path components: the provider
/// executable (`<root>/opy-provider`, which must be a regular file), the
/// root directory itself, or anything else, which is refused.
pub open spec fn archive_entry_outcome(
    components: Seq<Seq<char>>,
    regular_file: bool,
    version: Seq<char>,
    target: Seq<char>,
) -> Result<bool, Seq<char>> {
    let root = archive_root_of(version, target);
    if components == seq![root, "opy-provider"@] {
        if regular_file {
            Ok(true)
        } else {
            Err("OPY provider archive executable is not a regular file"@)
        }
    } else if components == seq![root] {
        Ok(false)
    } else {
        Err("OPY provider archive contains an unexpected path"@)
    }
}

/// Classifies one archive entry: `Ok(true)` for the provider executable,
/// `Ok(false)` for the root directory, a `provider-install` failure for any
/// other entry.
pub fn archive_entry(components: &[String], regular_file: bool, version: &str, target: &str) -> (r:
    Result<bool, OpyProviderError>)
    ensures
        match archive_entry_outcome(crate::edit::strs(components@), regular_file, version@, target@) {
            Ok(b) => r == Ok::<bool, OpyProviderError>(b),
            Err(m) => r matches Err(e) && is_error(e, "provider-install"@, m),
        },
{
    let mut root = owned("opy-provider-");
    root.append(version);
    root.append("-");
    root.append(target);
    let ghost cs = crate::edit::strs(components@);
    let ghost rv = archive_root_of(version@, target@);
    assert(root@ =~= rv);
    if components.len() == 2 && str_eq(components[0].as_str(), root.as_str()) && str_eq(
        components[1].as_str(),
        "opy-provider",
    ) {
        assert(cs =~= seq![rv, "opy-provider"@]);
        if regular_file {
            return Ok(true);
        }
        return Err(
            OpyProviderError::Install(owned("OPY provider archive executable is not a regular file")),
        );
    }
    assert(cs != seq![rv, "opy-provider"@]) by {
        if cs == seq![rv, "opy-provider"@] {
            assert(cs.len() == components@.len());
            assert(cs[0] == rv && cs[1] == "opy-provider"@);
            assert(cs[0] == components@[0]@);
            assert(cs[1] == components@[1]@);
        }
    }
    if components.len() == 1 && str_eq(components[0].as_str(), root.as_str()) {
        assert(cs =~= seq![rv]);
        return Ok(false);
    }
    assert(cs != seq![rv]) by {
        if cs == seq![rv] {
            assert(cs.len() == components@.len());
            assert(cs[0] == rv);
            assert(cs[0] == components@[0]@);
        }
    }
    Err(OpyProviderError::Install(owned("OPY provider archive contains an unexpected path")))
}

/// What installing into the store does, given what is already there: an
/// installed executable is reused (`Ok(true)`: only activate it); an
/// installed file that is not executable, or a target directory without
/// one, is refused; otherwise the archive is unpacked (`Ok(false)`).
pub open spec fn install_plan_outcome(
    final_dir: Seq<char>,
    final_executable: Seq<char>,
    executable_is_file: bool,
    executable_runs: bool,
    dir_exists: bool,
) -> Result<bool, Seq<char>> {
    if executable_is_file {
        if executable_runs {
            Ok(true)
        } else {
            Err("installed OPY provider '"@ + final_executable + "' is not executable"@)
        }
    } else if dir_exists {
        Err(
            "cannot install OPY provider: target directory '"@ + final_dir
                + "' already exists without a valid executable"@,
        )
    } else {
        Ok(false)
    }
}

/// Decides how an install proceeds in the store (see
/// [`install_plan_outcome`]); the version's target directory and executable
/// are those of `store`.
pub fn install_plan(
    store: &str,
    version: &str,
    target: &str,
    executable_is_file: bool,
    executable_runs: bool,
    dir_exists: bool,
) -> (r: Result<bool, OpyProviderError>)
    ensures
        match install_plan_outcome(
            join_path(join_path(store@, version@), target@),
            provider_path_of(store@, version@, target@),
            executable_is_file,
            executable_runs,
            dir_exists,
        ) {
            Ok(b) => r == Ok::<bool, OpyProviderError>(b),
            Err(m) => r matches Err(e) && is_error(e, "provider-install"@, m),
        },
{
    if executable_is_file {
        if executable_runs {
            return Ok(true);
        }
        let path = provider_path(store, version, target);
        let mut m = owned("installed OPY provider '");
        m.append(path.as_str());
        m.append("' is not executable");
        return Err(OpyProviderError::Install(m));
    }
    if dir_exists {
        let a = join(store, version);
        let dir = join(a.as_str(), target);
        let mut m = owned("cannot install OPY provider: target directory '");
        m.append(dir.as_str());
        m.append("' already exists without a valid executable");
        return Err(OpyProviderError::Install(m));
    }
    Ok(false)
}


// ---------------------------------------------------------------------------
// Reading a release archive.
// ---------------------------------------------------------------------------

/// One entry of a release archive: its path components, whether it is a
/// regular file, its mode (when the header gives one) and its bytes.
pub type ArchiveEntry = (Vec<String>, bool, Option<u32>, Vec<u8>);

/// The step at which reading an archive failed.
#[derive(Debug, Clone, Copy, PartialEq, Eq, Structural)]
pub enum ArchiveStep {
    /// Opening the gzip-compressed tar stream.
    Open,
    /// Reading the next entry's header.
    Header,
    /// Reading an entry's path.
    PathName,
    /// Reading an entry's bytes.
    Body,
}

/// Archive entries as plain values.
pub open spec fn entries_view(es: Seq<ArchiveEntry>) -> Seq<(Seq<Seq<char>>, bool, Option<u32>, Seq<u8>)> {
    es.map_values(|e: ArchiveEntry| (crate::edit::strs(e.0@), e.1, e.2, e.3@))
}

/// What reading a gzip-compressed tar archive gives: its entries in order,
/// up to the first read failure (its step and error text), if any.
pub uninterp spec fn archive_entries_of(archive: Seq<u8>) -> (
    Seq<(Seq<Seq<char>>, bool, Option<u32>, Seq<u8>)>,
    Option<(ArchiveStep, Seq<char>)>,
);

/// Reads a release archive with `flate2::read::GzDecoder` and
/// `tar::Archive::entries`: each entry's path components (`Entry::path`,
/// each component as its text), `EntryType::is_file`, `Header::mode` and
/// its bytes (`Read::read_to_end`), until the first error, with the step
/// it failed at. The result is named as a function of the archive bytes.
#[verifier::external_body]
fn archive_entries(archive: &[u8]) -> (r: (Vec<ArchiveEntry>, Option<(ArchiveStep, String)>))
    ensures
        (entries_view(r.0@), match r.1 { Some((s, e)) => Some((s, e@)), None => None }) == archive_entries_of(archive@),
{
    let (mut out, mut step, mut tar) = (vec![], Open, Archive::new(GzDecoder::new(archive)));
    let r = (|| -> IoResult<()> {
        for entry in tar.entries()? {
            step = Header; let mut x = entry?;
            step = PathName; let mut a = (x.path()?.iter().map(|c| c.to_string_lossy().into()).collect(), x.header().entry_type().is_file(), x.header().mode().ok(), vec![]);
            step = Body; x.read_to_end(&mut a.3)?;
            out.push(a);
        }
        Ok(())
    })();
    (out, r.err().map(|e| (step, e.to_string())))
}

/// The message of an archive read failure; `output` names the file the
/// provider is unpacked to.
pub open spec fn archive_failure_message(step: ArchiveStep, error: Seq<char>, output: Seq<char>) -> Seq<char> {
    match step {
        ArchiveStep::Open => "cannot read OPY provider archive: "@ + error,
        ArchiveStep::Header => "cannot read OPY provider archive entry: "@ + error,
        ArchiveStep::PathName => "cannot inspect OPY provider archive path: "@ + error,
        ArchiveStep::Body => "cannot unpack staged OPY provider '"@ + output + "': "@ + error,
    }
}

/// The message of an archive without the provider executable.
pub open spec fn no_provider_message() -> Seq<char> {
    "OPY provider archive does not contain an executable provider"@
}

/// The provider found among entries `es[i..]` after `found`: the last
/// provider entry's bytes and mode (`0o755` when the header has none) with
/// every execute bit set, or the refusal of the first entry that is neither
/// the provider nor the archive root.
pub open spec fn payload_from(
    es: Seq<(Seq<Seq<char>>, bool, Option<u32>, Seq<u8>)>,
    i: int,
    found: Option<(Seq<u8>, u32)>,
    version: Seq<char>,
    target: Seq<char>,
) -> Result<Option<(Seq<u8>, u32)>, Seq<char>>
    decreases es.len() - i,
{
    if i < 0 || i >= es.len() {
        Ok(found)
    } else {
        let e = es[i];
        match archive_entry_outcome(e.0, e.1, version, target) {
            Err(m) => Err(m),
            Ok(true) => payload_from(
                es,
                i + 1,
                Some((
                    e.3,
                    match e.2 {
                        Some(m) => m,
                        None => 0o755u32,
                    } | 0o111u32,
                )),
                version,
                target,
            ),
            Ok(false) => payload_from(es, i + 1, found, version, target),
        }
    }
}

/// The provider executable of a read archive: the entries' outcome, then
/// the read failure, then the provider's bytes and mode.
pub open spec fn payload_outcome(
    es: Seq<(Seq<Seq<char>>, bool, Option<u32>, Seq<u8>)>,
    failure: Option<(ArchiveStep, Seq<char>)>,
    version: Seq<char>,
    target: Seq<char>,
    output: Seq<char>,
) -> Result<(Seq<u8>, u32), Seq<char>> {
    match payload_from(es, 0, None, version, target) {
        Err(m) => Err(m),
        Ok(found) => match failure {
            Some((step, e)) => Err(archive_failure_message(step, e, output)),
            None => match found {
                Some(x) => Ok(x),
                None => Err(no_provider_message()),
            },
        },
    }
}

/// The provider executable among read archive entries (see
/// [`payload_outcome`]); a failure is a `provider-install` error.
pub fn payload_of_entries(
    entries: &Vec<ArchiveEntry>,
    failure: &Option<(ArchiveStep, String)>,
    version: &str,
    target: &str,
    output: &str,
) -> (r: Result<(Vec<u8>, u32), OpyProviderError>)
    ensures
        match payload_outcome(
            entries_view(entries@),
            match *failure { Some((s, e)) => Some((s, e@)), None => None },
            version@,
            target@,
            output@,
        ) {
            Ok((b, m)) => r matches Ok(x) && x.0@ == b && x.1 == m,
            Err(m) => r matches Err(e) && is_error(e, "provider-install"@, m),
        },
{
    let ghost es = entries_view(entries@);
    let mut found: Option<usize> = None;
    let mut found_mode: u32 = 0;
    let mut i: usize = 0;
    while i < entries.len()
        invariant
            i <= entries@.len(),
            es == entries_view(entries@),
            payload_from(es, 0, None, version@, target@) == payload_from(
                es,
                i as int,
                match found {
                    Some(k) => Some((es[k as int].3, found_mode)),
                    None => None,
                },
                version@,
                target@,
            ),
            found matches Some(k) ==> k < i,
        decreases entries@.len() - i,
    {
        let e = &entries[i];
        let is_provider = archive_entry(e.0.as_slice(), e.1, version, target)?;
        if is_provider {
            found = Some(i);
            found_mode = match e.2 {
                Some(m) => m,
                None => 0o755,
            } | 0o111;
        }
        i = i + 1;
    }
    match failure {
        Some((step, e)) => {
            let mut m = owned(
                match step {
                    ArchiveStep::Open => "cannot read OPY provider archive: ",
                    ArchiveStep::Header => "cannot read OPY provider archive entry: ",
                    ArchiveStep::PathName => "cannot inspect OPY provider archive path: ",
                    ArchiveStep::Body => "cannot unpack staged OPY provider '",
                },
            );
            if let ArchiveStep::Body = step {
                m.append(output);
                m.append("': ");
            }
            m.append(e.as_str());
            Err(OpyProviderError::Install(m))
        },
        None => match found {
            Some(k) => Ok((entries[k].3.clone(), found_mode)),
            None => Err(
                OpyProviderError::Install(
                    owned("OPY provider archive does not contain an executable provider"),
                ),
            ),
        },
    }
}

/// The provider executable of a release archive: its bytes and the mode to
/// give it, read with [`archive_entries`] and chosen by
/// [`payload_of_entries`].
pub fn provider_payload(archive: &[u8], version: &str, target: &str, output: &str) -> (r: Result<
    (Vec<u8>, u32),
    OpyProviderError,
>)
    ensures
        match payload_outcome(
            archive_entries_of(archive@).0,
            archive_entries_of(archive@).1,
            version@,
            target@,
            output@,
        ) {
            Ok((b, m)) => r matches Ok(x) && x.0@ == b && x.1 == m,
            Err(m) => r matches Err(e) && is_error(e, "provider-install"@, m),
        },
{
    let (entries, failure) = archive_entries(archive);
    payload_of_entries(&entries, &failure, version, target, output)
}

} // verus!
