//! Input identity (a SHA-256 hex digest) and the input-kind rules that turn a
//! path, a directory listing or standard-input text into a source kind.

use vstd::prelude::*;

use sha2::Digest;

use vstd::relations::{sorted_by, total_ordering};
use vstd::string::StringExecFns;

use crate::config::{SessionConfig, SourceKind, source_kind_name};
use crate::diag::{Diagnostic, Origin, Severity, Stage, plain_diagnostic};
use crate::edit::{first_from, lemma_first_from, strs};
use crate::paths::path_extension;
use crate::text::{
    ascii_lower, chars_of, is_white_space, lemma_seq_le_antisym, lemma_seq_le_refl,
    lemma_seq_le_total, lemma_seq_le_trans, seq_le, str_le, trim_start,
};

verus! {

broadcast use vstd::string::group_string_axioms, vstd::seq_lib::group_to_multiset_ensures;

/// The SHA-256 digest of a byte sequence.
pub uninterp spec fn sha256_digest_of(bytes: Seq<u8>) -> Seq<u8>;

/// The SHA-256 digest of `bytes` (`sha2::Sha256::digest`, copied into a
/// vector). The contract names the digest of the input and states that it is
/// 32 bytes long, as SHA-256 defines; which bytes it holds is not stated.
#[verifier::external_body]
pub(crate) fn sha256_digest(bytes: &[u8]) -> (r: Vec<u8>)
    ensures
        r@ == sha256_digest_of(bytes@),
        r@.len() == 32,
{
    sha2::Sha256::digest(bytes).to_vec()
}

/// The lower-case hexadecimal digit for a value below sixteen.
pub open spec fn hex_digit(n: int) -> char {
    if n < 10 {
        (48 + n) as char
    } else {
        (87 + n) as char
    }
}

/// Bytes rendered as lower-case hexadecimal, two digits per byte, high
/// nibble first (the `{:x}` rendering of a digest).
pub open spec fn lower_hex(bytes: Seq<u8>) -> Seq<char>
    decreases bytes.len(),
{
    if bytes.len() == 0 {
        Seq::<char>::empty()
    } else {
        lower_hex(bytes.drop_last()) + seq![
            hex_digit(bytes.last() as int / 16),
            hex_digit(bytes.last() as int % 16),
        ]
    }
}

/// The hex digest identity of a byte sequence.
pub open spec fn sha256_hex_of(bytes: Seq<u8>) -> Seq<char> {
    lower_hex(sha256_digest_of(bytes))
}

/// Hex rendering doubles the length.
pub proof fn lemma_lower_hex_len(bytes: Seq<u8>)
    ensures
        lower_hex(bytes).len() == 2 * bytes.len(),
    decreases bytes.len(),
{
    if bytes.len() > 0 {
        lemma_lower_hex_len(bytes.drop_last());
    }
}

pub(crate) fn hex_digit_exec(n: u8) -> (c: char)
    requires
        n < 16,
    ensures
        c == hex_digit(n as int),
{
    if n < 10 {
        (48u8 + n) as char
    } else {
        (87u8 + n) as char
    }
}

/// The SHA-256 digest of `bytes` as 64 lower-case hexadecimal characters.
pub fn sha256_hex(bytes: &[u8]) -> (r: String)
    ensures
        r@ == sha256_hex_of(bytes@),
        r@.len() == 64,
{
    let digest = sha256_digest(bytes);
    let mut out: Vec<char> = Vec::new();
    let mut i: usize = 0;
    while i < digest.len()
        invariant
            i <= digest@.len(),
            out@ == lower_hex(digest@.take(i as int)),
        decreases digest@.len() - i,
    {
        let b = digest[i];
        proof {
            assert(digest@.take(i + 1).drop_last() =~= digest@.take(i as int));
        }
        out.push(hex_digit_exec(b / 16));
        out.push(hex_digit_exec(b % 16));
        i = i + 1;
        assert(out@ =~= lower_hex(digest@.take(i as int)));
    }
    assert(digest@.take(i as int) =~= digest@);
    proof {
        lemma_lower_hex_len(digest@);
    }
    crate::text::string_from_chars(out.as_slice())
}

// ---------------------------------------------------------------------------
// Input kinds.
// ---------------------------------------------------------------------------

/// Whether an input names a file or a project directory.
#[derive(Debug, Clone, Copy, PartialEq, Eq, Structural)]
pub enum InputTarget {
    File,
    Directory,
}

/// One session input resolved into its kind, text and identity.
#[derive(Debug, Clone)]
pub struct ResolvedInput {
    pub kind: SourceKind,
    pub text: String,
    pub path: Option<String>,
    pub target: InputTarget,
    pub root: String,
    pub cwd: String,
    pub display: String,
    pub identity: String,
    pub origin: Origin,
}

/// The source kind a (lower-cased) file extension names.
pub open spec fn extension_kind(ext: Seq<char>) -> Option<SourceKind> {
    if ext == "opy"@ {
        Some(SourceKind::Opy)
    } else if ext == "ostw"@ || ext == "del"@ {
        Some(SourceKind::Ostw)
    } else if ext == "txt"@ || ext == "ow"@ || ext == "ws"@ || ext == "workshop"@ {
        Some(SourceKind::Workshop)
    } else if ext == "json"@ {
        Some(SourceKind::Protocol)
    } else {
        None
    }
}

/// How a path's extension decides its source kind: the kind of its
/// lower-cased extension, or the message that refuses it.
pub open spec fn path_kind(path: Seq<char>) -> Result<SourceKind, Seq<char>> {
    match path_extension(path) {
        None => Err(
            "cannot detect the input kind of '"@ + path
                + "' (no extension); pass `--kind opy|ostw|workshop|protocol` to override"@,
        ),
        Some(e) => match extension_kind(ascii_lower(e)) {
            Some(k) => Ok(k),
            None => Err(
                "cannot detect the input kind of '"@ + path + "' (unknown extension '."@
                    + ascii_lower(e)
                    + "'); pass `--kind opy|ostw|workshop|protocol` to override"@,
            ),
        },
    }
}

fn extension_kind_exec(ext: &[char]) -> (r: Option<SourceKind>)
    ensures
        r == extension_kind(ext@),
{
    let is = |lit: &str| -> (b: bool)
        ensures
            b == (ext@ == lit@),
        {
            let c = chars_of(lit);
            crate::text::chars_eq(ext, c.as_slice())
        };
    if is("opy") {
        Some(SourceKind::Opy)
    } else if is("ostw") || is("del") {
        Some(SourceKind::Ostw)
    } else if is("txt") || is("ow") || is("ws") || is("workshop") {
        Some(SourceKind::Workshop)
    } else if is("json") {
        Some(SourceKind::Protocol)
    } else {
        None
    }
}

/// The source kind of a file input, from its extension.
pub fn kind_from_extension(path: &str) -> (r: Result<SourceKind, Diagnostic>)
    ensures
        match path_kind(path@) {
            Ok(k) => r == Ok::<SourceKind, Diagnostic>(k),
            Err(m) => r matches Err(d) && plain_diagnostic(
                d,
                "input-kind-unknown"@,
                Stage::Discovery,
                Severity::Error,
                m,
            ),
        },
{
    let ext = match crate::paths::extension(path) {
        Some(e) => e,
        None => {
            let mut m = String::new();
            m.append("cannot detect the input kind of '");
            m.append(path);
            m.append("' (no extension); pass `--kind opy|ostw|workshop|protocol` to override");
            return Err(Diagnostic::error("input-kind-unknown", Stage::Discovery, m.as_str()));
        },
    };
    let c = chars_of(ext.as_str());
    let lower = crate::text::ascii_lower_chars(c.as_slice());
    match extension_kind_exec(lower.as_slice()) {
        Some(k) => Ok(k),
        None => {
            let other = crate::text::string_from_chars(lower.as_slice());
            let mut m = String::new();
            m.append("cannot detect the input kind of '");
            m.append(path);
            m.append("' (unknown extension '.");
            m.append(other.as_str());
            m.append("'); pass `--kind opy|ostw|workshop|protocol` to override");
            Err(Diagnostic::error("input-kind-unknown", Stage::Discovery, m.as_str()))
        },
    }
}

/// The message of empty standard input.
pub open spec fn stdin_empty_message() -> Seq<char> {
    "standard input is empty; provide a program on stdin or pass an input path"@
}

/// How standard-input text decides its kind: JSON protocol input when its
/// first non-white-space character is `{`, Workshop text otherwise; empty
/// (or all white space) input is refused.
pub open spec fn stdin_kind(text: Seq<char>) -> Option<SourceKind> {
    let t = trim_start(text);
    if t.len() == 0 {
        None
    } else if t[0] == '{' {
        Some(SourceKind::Protocol)
    } else {
        Some(SourceKind::Workshop)
    }
}

/// The source kind of standard-input text.
pub fn kind_from_stdin(text: &str) -> (r: Result<SourceKind, Diagnostic>)
    ensures
        match stdin_kind(text@) {
            Some(k) => r == Ok::<SourceKind, Diagnostic>(k),
            None => r matches Err(d) && plain_diagnostic(
                d,
                "stdin-empty"@,
                Stage::Discovery,
                Severity::Error,
                stdin_empty_message(),
            ),
        },
{
    let c = chars_of(text);
    let t = crate::text::trim_start_chars(c.as_slice());
    if t.len() == 0 {
        return Err(
            Diagnostic::error(
                "stdin-empty",
                Stage::Discovery,
                "standard input is empty; provide a program on stdin or pass an input path",
            ),
        );
    }
    if t[0] == '{' {
        Ok(SourceKind::Protocol)
    } else {
        Ok(SourceKind::Workshop)
    }
}

/// The origin a resolved input reports: Workshop text keeps its locale;
/// other kinds report none.
pub open spec fn origin_of(o: Origin, kind: SourceKind, locale: Option<Seq<char>>) -> bool {
    &&& o.kind@ == source_kind_name(kind)
    &&& match kind {
        SourceKind::Workshop => match (o.locale, locale) {
            (Some(x), Some(y)) => x@ == y,
            (None, None) => true,
            _ => false,
        },
        _ => o.locale is None,
    }
}

pub open spec fn opt_str(o: Option<String>) -> Option<Seq<char>> {
    match o {
        Some(x) => Some(x@),
        None => None,
    }
}

/// The origin of a resolved input of `kind`.
pub fn origin_for(kind: SourceKind, locale: Option<&str>) -> (o: Origin)
    ensures
        origin_of(
            o,
            kind,
            match locale {
                Some(l) => Some(l@),
                None => None,
            },
        ),
{
    match kind {
        SourceKind::Workshop => Origin {
            kind: crate::text::owned("workshop"),
            locale: match locale {
                Some(l) => Some(crate::text::owned(l)),
                None => None,
            },
        },
        _ => Origin { kind: crate::text::owned(kind.as_str()), locale: None },
    }
}

// ---------------------------------------------------------------------------
// Project directories.
// ---------------------------------------------------------------------------

/// What a project directory holds, as the caller listed it.
#[derive(Debug, Clone)]
pub struct DirectoryListing {
    /// `main.opy` or `src/main.opy` is a file.
    pub has_opy_main: bool,
    /// `ds.toml` is a file.
    pub has_ds_toml: bool,
    /// The paths of the directory's own regular files.
    pub files: Vec<String>,
}

pub open spec fn str_order() -> spec_fn(Seq<char>, Seq<char>) -> bool {
    |a: Seq<char>, b: Seq<char>| seq_le(a, b)
}

proof fn lemma_str_order_total()
    ensures
        total_ordering(str_order()),
{
    let f = str_order();
    assert forall|a: Seq<char>| #[trigger] f(a, a) by {
        lemma_seq_le_refl(a);
    }
    assert forall|a: Seq<char>, b: Seq<char>| #[trigger] f(a, b) && #[trigger] f(b, a) implies a
        == b by {
        lemma_seq_le_antisym(a, b);
    }
    assert forall|a: Seq<char>, b: Seq<char>, c: Seq<char>| #[trigger]
        f(a, b) && #[trigger] f(b, c) implies f(a, c) by {
        lemma_seq_le_trans(a, b, c);
    }
    assert forall|a: Seq<char>, b: Seq<char>| #[trigger] f(a, b) || #[trigger] f(b, a) by {
        lemma_seq_le_total(a, b);
    }
}

/// The files of a listing whose extension names `kind`, in listing order.
pub open spec fn files_of_kind(files: Seq<Seq<char>>, kind: SourceKind) -> Seq<Seq<char>> {
    files.filter(|f: Seq<char>| path_kind(f) == Ok::<SourceKind, Seq<char>>(kind))
}

proof fn lemma_insert_sorted_str(s: Seq<Seq<char>>, j: int, x: Seq<char>)
    requires
        sorted_by(s, str_order()),
        0 <= j <= s.len(),
        forall|k: int| 0 <= k < j ==> seq_le(s[k], x),
        j < s.len() ==> !seq_le(s[j], x),
    ensures
        sorted_by(s.insert(j, x), str_order()),
{
    lemma_str_order_total();
    let t = s.insert(j, x);
    s.insert_ensures(j, x);
    assert forall|k: int| 0 <= k < t.len() implies #[trigger] t[k] == (if k < j {
        s[k]
    } else if k == j {
        x
    } else {
        s[k - 1]
    }) by {
        if k > j {
            assert(t[(k - 1) + 1] == s[k - 1]);
        }
    }
    if j < s.len() {
        lemma_seq_le_total(s[j], x);
    }
    let f = str_order();
    assert forall|a: int, b: int| 0 <= a < b < t.len() implies #[trigger] f(t[a], t[b]) by {
        if b < j {
            assert(f(s[a], s[b]));
        } else if b == j {
            assert(seq_le(s[a], x));
        } else if a == j {
            if b - 1 > j {
                assert(f(s[j], s[b - 1]));
                lemma_seq_le_trans(x, s[j], s[b - 1]);
            }
        } else if a < j {
            assert(f(s[a], s[b - 1]));
        } else {
            assert(f(s[a - 1], s[b - 1]));
        }
    }
}

/// The first index where `x` does not stay behind `r`'s entries.
fn insertion_index(r: &Vec<String>, x: &String) -> (j: usize)
    ensures
        j <= r@.len(),
        forall|k: int| 0 <= k < j ==> seq_le(r@[k]@, x@),
        j < r@.len() ==> !seq_le(r@[j as int]@, x@),
{
    let cx = chars_of(x.as_str());
    let mut j: usize = 0;
    while j < r.len()
        invariant
            j <= r@.len(),
            cx@ == x@,
            forall|k: int| 0 <= k < j ==> seq_le(r@[k]@, x@),
        decreases r@.len() - j,
    {
        let cr = chars_of(r[j].as_str());
        if !str_le(cr.as_slice(), cx.as_slice()) {
            return j;
        }
        j = j + 1;
    }
    j
}

/// The listed files whose kind is `kind`, sorted by code point.
pub fn direct_source_files(listing: &DirectoryListing, kind: SourceKind) -> (r: Vec<String>)
    ensures
        sorted_by(strs(r@), str_order()),
        strs(r@).to_multiset() == files_of_kind(strs(listing.files@), kind).to_multiset(),
{
    let mut r: Vec<String> = Vec::new();
    let mut i: usize = 0;
    proof {
        reveal(Seq::filter);
        assert(strs(listing.files@).take(0) =~= Seq::<Seq<char>>::empty());
        assert(strs(r@) =~= Seq::<Seq<char>>::empty());
    }
    while i < listing.files.len()
        invariant
            i <= listing.files@.len(),
            sorted_by(strs(r@), str_order()),
            strs(r@).to_multiset() == files_of_kind(strs(listing.files@).take(i as int), kind).to_multiset(),
        decreases listing.files@.len() - i,
    {
        let f = &listing.files[i];
        proof {
            assert(strs(listing.files@).take(i + 1) =~= strs(listing.files@).take(i as int).push(
                f@,
            ));
            reveal(Seq::filter);
            assert(strs(listing.files@).take(i + 1).drop_last() =~= strs(listing.files@).take(
                i as int,
            ));
        }
        let k = kind_from_extension(f.as_str());
        let matches = match k {
            Ok(fk) => fk == kind,
            Err(_) => false,
        };
        assert(matches == (path_kind(f@) == Ok::<SourceKind, Seq<char>>(kind)));
        if matches {
            let j = insertion_index(&r, f);
            let ghost before = strs(r@);
            proof {
                lemma_insert_sorted_str(before, j as int, f@);
            }
            r.insert(j, f.clone());
            proof {
                assert(strs(r@) =~= before.insert(j as int, f@));
                assert(strs(r@).to_multiset() =~= before.to_multiset().insert(f@));
            }
        }
        i = i + 1;
    }
    assert(strs(listing.files@).take(i as int) =~= strs(listing.files@));
    r
}

/// The source kinds a directory listing shows, in the order OPY, OSTW,
/// Workshop: an OPY main file; an OSTW manifest or source file; a Workshop
/// source file.
pub open spec fn detected_kinds(listing: DirectoryListing) -> Seq<SourceKind> {
    let files = strs(listing.files@);
    let a = if listing.has_opy_main {
        seq![SourceKind::Opy]
    } else {
        Seq::<SourceKind>::empty()
    };
    let b = if listing.has_ds_toml || files_of_kind(files, SourceKind::Ostw).len() > 0 {
        a.push(SourceKind::Ostw)
    } else {
        a
    };
    if files_of_kind(files, SourceKind::Workshop).len() > 0 {
        b.push(SourceKind::Workshop)
    } else {
        b
    }
}

/// Texts joined with a separator.
pub open spec fn joined(parts: Seq<Seq<char>>, sep: Seq<char>) -> Seq<char>
    decreases parts.len(),
{
    if parts.len() == 0 {
        Seq::<char>::empty()
    } else if parts.len() == 1 {
        parts[0]
    } else {
        joined(parts.drop_last(), sep) + sep + parts.last()
    }
}

fn join_strings(parts: &[String], sep: &str) -> (s: String)
    ensures
        s@ == joined(strs(parts@), sep@),
{
    let mut s = String::new();
    let mut i: usize = 0;
    while i < parts.len()
        invariant
            i <= parts@.len(),
            s@ == joined(strs(parts@).take(i as int), sep@),
        decreases parts@.len() - i,
    {
        proof {
            assert(strs(parts@).take(i + 1).drop_last() =~= strs(parts@).take(i as int));
        }
        if i > 0 {
            s.append(sep);
        }
        s.append(parts[i].as_str());
        i = i + 1;
    }
    assert(strs(parts@).take(i as int) =~= strs(parts@));
    s
}

pub open spec fn kind_names(ks: Seq<SourceKind>) -> Seq<Seq<char>> {
    ks.map_values(|k: SourceKind| source_kind_name(k))
}

pub open spec fn no_owner_message(path: Seq<char>) -> Seq<char> {
    "cannot detect a source owner in directory '"@ + path
        + "'; pass `--kind opy|ostw|workshop` or target a file"@
}

pub open spec fn several_owners_message(path: Seq<char>, ks: Seq<SourceKind>) -> Seq<char> {
    "directory '"@ + path + "' contains multiple source kinds ("@ + joined(kind_names(ks), ", "@)
        + "); pass `--kind opy|ostw|workshop` or target a file"@
}

fn no_owner(path: &str) -> (d: Diagnostic)
    ensures
        plain_diagnostic(
            d,
            "input-kind-unknown"@,
            Stage::Discovery,
            Severity::Error,
            no_owner_message(path@),
        ),
{
    let mut m = String::new();
    m.append("cannot detect a source owner in directory '");
    m.append(path);
    m.append("'; pass `--kind opy|ostw|workshop` or target a file");
    Diagnostic::error("input-kind-unknown", Stage::Discovery, m.as_str())
}

/// The source kind of a project directory: the one kind its listing
/// shows; no kind, or several, are refused.
pub fn detect_directory_kind(path: &str, listing: &DirectoryListing) -> (r: Result<
    SourceKind,
    Diagnostic,
>)
    ensures
        detected_kinds(*listing).len() == 1 ==> r == Ok::<SourceKind, Diagnostic>(
            detected_kinds(*listing)[0],
        ),
        detected_kinds(*listing).len() == 0 ==> (r matches Err(d) && plain_diagnostic(
            d,
            "input-kind-unknown"@,
            Stage::Discovery,
            Severity::Error,
            no_owner_message(path@),
        )),
        detected_kinds(*listing).len() > 1 ==> (r matches Err(d) && plain_diagnostic(
            d,
            "input-kind-ambiguous"@,
            Stage::Discovery,
            Severity::Error,
            several_owners_message(path@, detected_kinds(*listing)),
        )),
{
    let ostw_files = direct_source_files(listing, SourceKind::Ostw);
    let workshop_files = direct_source_files(listing, SourceKind::Workshop);
    proof {
        assert(strs(ostw_files@).len() == strs(ostw_files@).to_multiset().len());
        assert(files_of_kind(strs(listing.files@), SourceKind::Ostw).len() == files_of_kind(
            strs(listing.files@),
            SourceKind::Ostw,
        ).to_multiset().len());
        assert(strs(workshop_files@).len() == strs(workshop_files@).to_multiset().len());
        assert(files_of_kind(strs(listing.files@), SourceKind::Workshop).len() == files_of_kind(
            strs(listing.files@),
            SourceKind::Workshop,
        ).to_multiset().len());
    }
    let mut kinds: Vec<SourceKind> = Vec::new();
    if listing.has_opy_main {
        kinds.push(SourceKind::Opy);
    }
    if listing.has_ds_toml || ostw_files.len() > 0 {
        kinds.push(SourceKind::Ostw);
    }
    if workshop_files.len() > 0 {
        kinds.push(SourceKind::Workshop);
    }
    assert(kinds@ =~= detected_kinds(*listing));
    if kinds.len() == 1 {
        return Ok(kinds[0]);
    }
    if kinds.len() == 0 {
        return Err(no_owner(path));
    }
    let mut names: Vec<String> = Vec::new();
    let mut i: usize = 0;
    while i < kinds.len()
        invariant
            i <= kinds@.len(),
            strs(names@) == kind_names(kinds@).take(i as int),
        decreases kinds@.len() - i,
    {
        let ghost prev = names@;
        let name = crate::text::owned(kinds[i].as_str());
        names.push(name);
        assert(strs(names@) =~= strs(prev).push(source_kind_name(kinds@[i as int])));
        assert(strs(names@) =~= kind_names(kinds@).take(i + 1));
        i = i + 1;
    }
    assert(kind_names(kinds@).take(i as int) =~= kind_names(kinds@));
    let list = join_strings(names.as_slice(), ", ");
    let mut m = String::new();
    m.append("directory '");
    m.append(path);
    m.append("' contains multiple source kinds (");
    m.append(list.as_str());
    m.append("); pass `--kind opy|ostw|workshop` or target a file");
    Err(Diagnostic::error("input-kind-ambiguous", Stage::Discovery, m.as_str()))
}

/// `s` from `pos` on with every occurrence of the non-empty `pat`, scanned
/// left to right without overlap, replaced by `rep` (`str::replace`).
pub open spec fn replace_from(s: Seq<char>, pat: Seq<char>, rep: Seq<char>, pos: int) -> Seq<char>
    decreases s.len() - pos,
{
    if pat.len() == 0 || pos < 0 || pos > s.len() {
        Seq::<char>::empty()
    } else {
        match first_from(s, pat, pos) {
            None => s.skip(pos),
            Some(i) => {
                proof {
                    lemma_first_from(s, pat, pos);
                }
                s.subrange(pos, i) + rep + replace_from(s, pat, rep, i + pat.len())
            },
        }
    }
}

fn replace_all(s: &[char], pat: &[char], rep: &[char]) -> (r: Vec<char>)
    requires
        pat@.len() > 0,
    ensures
        r@ == replace_from(s@, pat@, rep@, 0),
{
    let mut out: Vec<char> = Vec::new();
    let mut pos: usize = 0;
    while pos <= s.len()
        invariant
            pos <= s@.len(),
            pat@.len() > 0,
            out@ + replace_from(s@, pat@, rep@, pos as int) == replace_from(s@, pat@, rep@, 0),
        decreases s@.len() + 1 - pos,
    {
        match crate::edit::find_from(s, pat, pos) {
            None => {
                crate::edit::push_slice(&mut out, s, pos, s.len());
                assert(s@.subrange(pos as int, s@.len() as int) =~= s@.skip(pos as int));
                return out;
            },
            Some(i) => {
                proof {
                    lemma_first_from(s@, pat@, pos as int);
                }
                let ghost before = out@;
                crate::edit::push_slice(&mut out, s, pos, i);
                crate::edit::push_slice(&mut out, rep, 0, rep.len());
                assert(rep@.subrange(0, rep@.len() as int) =~= rep@);
                let e = i + pat.len();
                assert(out@ + replace_from(s@, pat@, rep@, e as int) =~= before + replace_from(
                    s@,
                    pat@,
                    rep@,
                    pos as int,
                ));
                pos = e;
            },
        }
    }
    out
}

/// The message of a directory that does not hold exactly one source file
/// of its kind, before the kind's name is put in.
pub open spec fn count_message_template(path: Seq<char>, files: Seq<Seq<char>>) -> Seq<char> {
    let detail = if files.len() == 0 {
        "no matching source file was found"@
    } else {
        "multiple matching source files were found: "@ + joined(files, ", "@)
    };
    "Workshop directory '"@ + path + "' must contain exactly one source file; "@ + detail
        + "; pass an explicit file path"@
}

/// The refusal of a directory that does not hold exactly one source file
/// of `kind`: the message names the kind's directory (every occurrence of
/// "Workshop directory" in the text is replaced with it) and lists the files.
pub fn directory_source_count_error(path: &str, kind: SourceKind, files: &[String]) -> (d: Diagnostic)
    ensures
        plain_diagnostic(
            d,
            "input-kind-ambiguous"@,
            Stage::Discovery,
            Severity::Error,
            replace_from(
                count_message_template(path@, strs(files@)),
                "Workshop directory"@,
                source_kind_name(kind) + " directory"@,
                0,
            ),
        ),
{
    let mut detail = String::new();
    if files.len() == 0 {
        detail.append("no matching source file was found");
    } else {
        let list = join_strings(files, ", ");
        detail.append("multiple matching source files were found: ");
        detail.append(list.as_str());
    }
    assert(detail@ == (if strs(files@).len() == 0 {
        "no matching source file was found"@
    } else {
        "multiple matching source files were found: "@ + joined(strs(files@), ", "@)
    }));
    let mut m = String::new();
    m.append("Workshop directory '");
    m.append(path);
    m.append("' must contain exactly one source file; ");
    m.append(detail.as_str());
    m.append("; pass an explicit file path");
    assert(m@ == count_message_template(path@, strs(files@)));
    let mut rep = String::new();
    rep.append(kind.as_str());
    rep.append(" directory");
    let mc = chars_of(m.as_str());
    let pat = chars_of("Workshop directory");
    let rc = chars_of(rep.as_str());
    proof {
        reveal_strlit("Workshop directory");
    }
    let out = replace_all(mc.as_slice(), pat.as_slice(), rc.as_slice());
    let text = crate::text::string_from_chars(out.as_slice());
    Diagnostic::error("input-kind-ambiguous", Stage::Discovery, text.as_str())
}

// ---------------------------------------------------------------------------
// Resolving an input.
// ---------------------------------------------------------------------------

/// The project root of a file input: the configured root (relative roots
/// resolved from the invocation directory), else the file's parent
/// directory, else `.`.
pub open spec fn file_root(config_root: Option<Seq<char>>, path: Seq<char>, cwd: Seq<char>) -> Seq<
    char,
> {
    match config_root {
        Some(r) => crate::source_provider::resolved_entry(r, cwd),
        None => match crate::paths::path_parent_of(path) {
            Some(p) => p,
            None => "."@,
        },
    }
}

/// The fields a resolved input carries whatever its kind.
pub open spec fn resolved_fields(
    r: ResolvedInput,
    kind: SourceKind,
    path: Option<Seq<char>>,
    target: InputTarget,
    cwd: Seq<char>,
    display: Seq<char>,
    locale: Option<Seq<char>>,
) -> bool {
    &&& r.kind == kind
    &&& opt_str(r.path) == path
    &&& r.target == target
    &&& r.cwd@ == cwd
    &&& r.display@ == display
    &&& origin_of(r.origin, kind, locale)
}

fn resolved_root(config: &SessionConfig, path: &str, cwd: &str) -> (r: String)
    ensures
        r@ == file_root(opt_str(config.root), path@, cwd@),
{
    match &config.root {
        Some(root) => {
            if crate::paths::is_absolute(root.as_str()) {
                root.clone()
            } else {
                crate::paths::join(cwd, root.as_str())
            }
        },
        None => match crate::paths::parent(path) {
            Some(p) => p,
            None => crate::text::owned("."),
        },
    }
}

fn locale_of(config: &SessionConfig) -> (r: Option<&str>)
    ensures
        match r {
            Some(l) => opt_str(config.locale) == Some(l@),
            None => config.locale is None,
        },
{
    match &config.locale {
        Some(l) => Some(l.as_str()),
        None => None,
    }
}

/// Resolves a file input whose bytes were read as `text` with identity
/// `identity`: an automatic kind comes from the extension; the root is the
/// configured one or the file's directory.
pub fn resolve_file(
    path: &str,
    text: String,
    identity: String,
    config: &SessionConfig,
    cwd: &str,
    display: String,
) -> (r: Result<ResolvedInput, Diagnostic>)
    ensures
        config.kind == SourceKind::Auto && path_kind(path@) is Err ==> (r matches Err(d)
            && plain_diagnostic(
            d,
            "input-kind-unknown"@,
            Stage::Discovery,
            Severity::Error,
            path_kind(path@)->Err_0,
        )),
        config.kind != SourceKind::Auto || path_kind(path@) is Ok ==> (r matches Ok(ri) && {
            &&& resolved_fields(
                ri,
                if config.kind == SourceKind::Auto {
                    path_kind(path@)->Ok_0
                } else {
                    config.kind
                },
                Some(path@),
                InputTarget::File,
                cwd@,
                display@,
                opt_str(config.locale),
            )
            &&& ri.text@ == text@
            &&& ri.identity@ == identity@
            &&& ri.root@ == file_root(opt_str(config.root), path@, cwd@)
        }),
{
    let kind = if config.kind == SourceKind::Auto {
        match kind_from_extension(path) {
            Ok(k) => k,
            Err(d) => {
                return Err(d);
            },
        }
    } else {
        config.kind
    };
    let root = resolved_root(config, path, cwd);
    let origin = origin_for(kind, locale_of(config));
    Ok(
        ResolvedInput {
            kind,
            text,
            path: Some(crate::text::owned(path)),
            target: InputTarget::File,
            root,
            cwd: crate::text::owned(cwd),
            display,
            identity,
            origin,
        },
    )
}

/// The standard-input display name.
pub open spec fn stdin_display() -> Seq<char> {
    "<stdin>"@
}

/// Resolves standard input that was read as `text` with identity
/// `identity`: an automatic kind comes from the text; the root is the
/// configured one (as given) or the invocation directory.
pub fn resolve_stdin(text: String, identity: String, config: &SessionConfig, cwd: &str) -> (r: Result<
    ResolvedInput,
    Diagnostic,
>)
    ensures
        config.kind == SourceKind::Auto && stdin_kind(text@) is None ==> (r matches Err(d)
            && plain_diagnostic(
            d,
            "stdin-empty"@,
            Stage::Discovery,
            Severity::Error,
            stdin_empty_message(),
        )),
        config.kind != SourceKind::Auto || stdin_kind(text@) is Some ==> (r matches Ok(ri) && {
            &&& resolved_fields(
                ri,
                if config.kind == SourceKind::Auto {
                    stdin_kind(text@)->Some_0
                } else {
                    config.kind
                },
                None,
                InputTarget::File,
                cwd@,
                stdin_display(),
                opt_str(config.locale),
            )
            &&& ri.text@ == text@
            &&& ri.identity@ == identity@
            &&& ri.root@ == match opt_str(config.root) {
                Some(root) => root,
                None => cwd@,
            }
        }),
{
    let kind = if config.kind == SourceKind::Auto {
        match kind_from_stdin(text.as_str()) {
            Ok(k) => k,
            Err(d) => {
                return Err(d);
            },
        }
    } else {
        config.kind
    };
    let root = match &config.root {
        Some(r) => r.clone(),
        None => crate::text::owned(cwd),
    };
    let origin = origin_for(kind, locale_of(config));
    Ok(
        ResolvedInput {
            kind,
            text,
            path: None,
            target: InputTarget::File,
            root,
            cwd: crate::text::owned(cwd),
            display: crate::text::owned("<stdin>"),
            identity,
            origin,
        },
    )
}

/// How a directory input resolves: to its one source file, which the
/// caller reads and resolves as a file, or to the directory itself.
#[derive(Debug, Clone)]
pub enum DirectoryResolution {
    File(String),
    Directory(ResolvedInput),
}

pub open spec fn protocol_directory_message(path: Seq<char>) -> Seq<char> {
    "protocol input '"@ + path + "' must name a file, not a directory"@
}

/// Resolves a directory input from its listing. A Workshop project (named,
/// or detected) must hold exactly one Workshop file, which is then the
/// input; protocol input cannot be a directory; an OPY or OSTW project
/// resolves to the directory with the configured root (relative roots
/// resolved from the invocation directory) or the directory itself.
pub fn resolve_directory(
    path: &str,
    config: &SessionConfig,
    cwd: &str,
    display: String,
    listing: &DirectoryListing,
) -> (r: Result<DirectoryResolution, Diagnostic>)
    ensures
        config.kind == SourceKind::Protocol ==> (r matches Err(d) && plain_diagnostic(
            d,
            "input-kind-directory-unsupported"@,
            Stage::Discovery,
            Severity::Error,
            protocol_directory_message(path@),
        )),
        config.kind == SourceKind::Auto && detected_kinds(*listing).len() != 1 ==> r is Err,
        ({
            let kind = if config.kind == SourceKind::Auto {
                detected_kinds(*listing)[0]
            } else {
                config.kind
            };
            let workshop = files_of_kind(strs(listing.files@), SourceKind::Workshop);
            (config.kind != SourceKind::Protocol && (config.kind != SourceKind::Auto
                || detected_kinds(*listing).len() == 1)) ==> if kind == SourceKind::Workshop {
                if workshop.len() == 1 {
                    r matches Ok(DirectoryResolution::File(f)) && f@ == workshop[0]
                } else {
                    r matches Err(d) && d.code@ == "input-kind-ambiguous"@
                }
            } else {
                r matches Ok(DirectoryResolution::Directory(ri)) && {
                    &&& resolved_fields(
                        ri,
                        kind,
                        Some(path@),
                        InputTarget::Directory,
                        cwd@,
                        display@,
                        opt_str(config.locale),
                    )
                    &&& ri.text@.len() == 0
                    &&& ri.identity@.len() == 0
                    &&& ri.root@ == match opt_str(config.root) {
                        Some(root) => crate::source_provider::resolved_entry(root, cwd@),
                        None => path@,
                    }
                }
            }
        }),
{
    let kind = match config.kind {
        SourceKind::Auto => match detect_directory_kind(path, listing) {
            Ok(k) => k,
            Err(d) => {
                return Err(d);
            },
        },
        SourceKind::Protocol => {
            let mut m = String::new();
            m.append("protocol input '");
            m.append(path);
            m.append("' must name a file, not a directory");
            return Err(
                Diagnostic::error("input-kind-directory-unsupported", Stage::Discovery, m.as_str()),
            );
        },
        other => other,
    };
    if kind == SourceKind::Workshop {
        let files = direct_source_files(listing, SourceKind::Workshop);
        let ghost workshop = files_of_kind(strs(listing.files@), SourceKind::Workshop);
        proof {
            assert(strs(files@).len() == strs(files@).to_multiset().len());
            assert(workshop.len() == workshop.to_multiset().len());
        }
        if files.len() != 1 {
            return Err(directory_source_count_error(path, SourceKind::Workshop, files.as_slice()));
        }
        proof {
            assert(workshop.len() == 1);
            assert(workshop.contains(workshop[0]));
            assert(workshop.to_multiset().contains(workshop[0]));
            assert(strs(files@).to_multiset().contains(workshop[0]));
            assert(strs(files@).contains(workshop[0]));
            assert(strs(files@)[0] == workshop[0]);
        }
        return Ok(DirectoryResolution::File(files[0].clone()));
    }
    let root = match &config.root {
        Some(r) => {
            if crate::paths::is_absolute(r.as_str()) {
                r.clone()
            } else {
                crate::paths::join(cwd, r.as_str())
            }
        },
        None => crate::text::owned(path),
    };
    let origin = origin_for(kind, locale_of(config));
    Ok(
        DirectoryResolution::Directory(
            ResolvedInput {
                kind,
                text: String::new(),
                path: Some(crate::text::owned(path)),
                target: InputTarget::Directory,
                root,
                cwd: crate::text::owned(cwd),
                display,
                identity: String::new(),
                origin,
            },
        ),
    )
}

} // verus!
