//! Provider-backed semantic edits. A language provider proposes rename edits
//! in its own coordinates (0-based lines, UTF-16 offsets); they become Wright
//! edit transactions (1-based lines and character columns), every Wright
//! transaction guarantee is checked again, and the provider's validation
//! gates run before a preview is offered. A refusal never carries a partial
//! transaction or preview.
//!
//! The provider runs outside the library: [`ProviderEditFlow`] decides, the
//! caller performs each provider request and reports its reply.

use vstd::prelude::*;

use crate::diag::{plain_diagnostic, Diagnostic, Severity, Stage};
use crate::document::{
    lemma_utf16_length_bound, opt_view, utf16_length, utf16_units, Position, Range,
};
use crate::lpp::{
    CheckResult, DocumentDiagnostics, DocumentEdits, LppDiagnostic, LppDocument, LppSeverity,
    LppTextEdit, ProviderFailure, RenameResult, ValidateEditsResult,
};
use crate::edit::{
    all_sources_apply, check_preconditions, conflict_code, conflict_message, describes, edit_keys,
    empty_transaction_message, first_failing_source, invalid_range, no_conflict_before, pair_conflict,
    precondition_failures, previews_of, sorted_keys, source_result, texts_cover, DiagSpec,
    EditRange, EditTransaction, SourceEdit, SourcePreview, SourceTexts,
};
use crate::text::{
    chars_of, decimal, decimal_string, lemma_split_lines_bounds, owned, split_lines, split_lines_exec,
    str_eq,
};

verus! {

broadcast use vstd::string::group_string_axioms;

// ---------------------------------------------------------------------------
// Coordinates.
// ---------------------------------------------------------------------------

/// The 1-based character column at which `units` UTF-16 code units of the
/// line have been passed, if that offset is a character boundary of it.
pub open spec fn units_column(line: Seq<char>, units: int) -> Option<int> {
    if exists|k: int| 0 <= k <= line.len() && utf16_length(#[trigger] line.take(k)) == units {
        Some(
            (choose|k: int| 0 <= k <= line.len() && utf16_length(#[trigger] line.take(k)) == units)
                + 1,
        )
    } else {
        None
    }
}

/// The UTF-16 offset of the 1-based character column, if the column lies in
/// the line or just after its end.
pub open spec fn column_units(line: Seq<char>, column: int) -> Option<int> {
    if 1 <= column <= line.len() + 1 {
        Some(utf16_length(line.take(column - 1)) as int)
    } else {
        None
    }
}

proof fn lemma_utf16_take_step(s: Seq<char>, k: int)
    requires
        0 <= k < s.len(),
    ensures
        utf16_length(s.take(k + 1)) == utf16_length(s.take(k)) + utf16_units(s[k]),
{
    assert(s.take(k + 1).drop_last() =~= s.take(k));
}

/// Each further character adds at least one UTF-16 code unit.
proof fn lemma_utf16_take_increasing(s: Seq<char>, a: int, b: int)
    requires
        0 <= a <= b <= s.len(),
    ensures
        utf16_length(s.take(a)) + (b - a) <= utf16_length(s.take(b)),
    decreases b - a,
{
    if a < b {
        lemma_utf16_take_step(s, b - 1);
        lemma_utf16_take_increasing(s, a, b - 1);
    }
}

/// `utf16_to_char_column`: the character column of a UTF-16 offset.
pub fn utf16_to_char_column(line: &[char], units: u32) -> (r: Option<u32>)
    requires
        line@.len() < u32::MAX,
    ensures
        match units_column(line@, units as int) {
            Some(c) => r == Some(c as u32),
            None => r is None,
        },
{
    let mut acc: u64 = 0;
    let mut i: usize = 0;
    while i < line.len()
        invariant
            i <= line@.len() < u32::MAX,
            acc == utf16_length(line@.take(i as int)),
            acc <= units,
            forall|k: int| 0 <= k < i ==> utf16_length(#[trigger] line@.take(k)) < units,
        decreases line@.len() - i,
    {
        if acc == units as u64 {
            proof {
                assert forall|k: int|
                    0 <= k <= line@.len() && utf16_length(#[trigger] line@.take(k)) == units implies k
                    == i by {
                    if k > i {
                        lemma_utf16_take_increasing(line@, i as int, k);
                    }
                }
            }
            return Some((i + 1) as u32);
        }
        let len: u64 = if (line[i] as u32) >= 0x10000 {
            2
        } else {
            1
        };
        proof {
            lemma_utf16_take_step(line@, i as int);
        }
        if acc + len > units as u64 {
            proof {
                assert forall|k: int| 0 <= k <= line@.len() implies utf16_length(
                    #[trigger] line@.take(k),
                ) != units by {
                    if k > i {
                        lemma_utf16_take_increasing(line@, i + 1, k);
                    }
                }
            }
            return None;
        }
        acc = acc + len;
        i = i + 1;
    }
    if acc == units as u64 {
        proof {
            assert forall|k: int|
                0 <= k <= line@.len() && utf16_length(#[trigger] line@.take(k)) == units implies k
                == i by {}
        }
        Some((i + 1) as u32)
    } else {
        None
    }
}

/// `char_column_to_utf16`: the UTF-16 offset of a character column.
pub fn char_column_to_utf16(line: &[char], column: u32) -> (r: Option<u32>)
    requires
        line@.len() <= 0x7fff_ffff,
    ensures
        match column_units(line@, column as int) {
            Some(u) => r == Some(u as u32),
            None => r is None,
        },
{
    if column == 0 || column as usize > line.len() + 1 {
        return None;
    }
    let stop = (column - 1) as usize;
    let mut acc: u64 = 0;
    let mut i: usize = 0;
    while i < stop
        invariant
            stop <= line@.len() <= 0x7fff_ffff,
            i <= stop,
            acc == utf16_length(line@.take(i as int)),
            acc <= 2 * i,
        decreases stop - i,
    {
        proof {
            lemma_utf16_take_step(line@, i as int);
        }
        let len: u64 = if (line[i] as u32) >= 0x10000 {
            2
        } else {
            1
        };
        acc = acc + len;
        i = i + 1;
    }
    Some(acc as u32)
}

/// The position-to-column failures name the position and the line count.
pub open spec fn line_count_message(what: Seq<char>, line: u32, n: nat) -> Seq<char> {
    "the "@ + what + " names line "@ + decimal(line as nat) + ", but the document has "@ + decimal(
        n,
    ) + " lines"@
}

pub open spec fn boundary_message(what: Seq<char>, pos: Position) -> Seq<char> {
    "the "@ + what + " names UTF-16 offset "@ + decimal(pos.character as nat) + " in line "@
        + decimal(pos.line as nat) + ", which is not a character boundary of that line"@
}

/// A provider position as a Wright (line, column), or why it names none.
pub open spec fn position_column(lines: Seq<Seq<char>>, pos: Position, what: Seq<char>) -> Result<
    (int, int),
    Seq<char>,
> {
    if pos.line >= lines.len() {
        Err(line_count_message(what, pos.line, lines.len()))
    } else {
        match units_column(lines[pos.line as int], pos.character as int) {
            None => Err(boundary_message(what, pos)),
            Some(c) => Ok((pos.line + 1, c)),
        }
    }
}

pub open spec fn invalid_range_message(r: Range) -> Seq<char> {
    "the provider edit range "@ + decimal(r.start.line as nat) + "-"@ + decimal(
        r.start.character as nat,
    ) + ":"@ + decimal(r.end.line as nat) + "-"@ + decimal(r.end.character as nat)
        + " is not a valid range of the document"@
}

/// A provider range over `text` as a Wright edit range, or the message of
/// the `edit-invalid-range` refusal.
pub open spec fn edit_range_of(text: Seq<char>, r: Range) -> Result<EditRange, Seq<char>> {
    let lines = split_lines(text);
    match position_column(lines, r.start, "range start"@) {
        Err(m) => Err(m),
        Ok(s) => match position_column(lines, r.end, "range end"@) {
            Err(m) => Err(m),
            Ok(e) => if s.0 > e.0 || (s.0 == e.0 && s.1 > e.1) {
                Err(invalid_range_message(r))
            } else {
                Ok(
                    EditRange {
                        start_line: s.0 as u32,
                        start_col: s.1 as u32,
                        end_line: e.0 as u32,
                        end_col: e.1 as u32,
                    },
                )
            },
        },
    }
}

fn invalid_range_diagnostic(message: String) -> (d: Diagnostic)
    ensures
        invalid_range(d, message@),
{
    Diagnostic::error("edit-invalid-range", Stage::Discovery, message.as_str())
}

fn position_to_column(lines: &Vec<Vec<char>>, pos: Position, what: &str) -> (r: Result<
    (u32, u32),
    Diagnostic,
>)
    requires
        lines@.len() < u32::MAX,
        forall|i: int| 0 <= i < lines@.len() ==> #[trigger] lines@[i]@.len() < u32::MAX,
    ensures
        match position_column(crate::text::views(lines@), pos, what@) {
            Ok(c) => r matches Ok(x) && x.0 == c.0 && x.1 == c.1,
            Err(m) => r matches Err(d) && invalid_range(d, m),
        },
{
    let ghost ls = crate::text::views(lines@);
    if pos.line as usize >= lines.len() {
        let mut m = owned("the ");
        m.append(what);
        m.append(" names line ");
        m.append(decimal_string(pos.line as u64).as_str());
        m.append(", but the document has ");
        m.append(decimal_string(lines.len() as u64).as_str());
        m.append(" lines");
        return Err(invalid_range_diagnostic(m));
    }
    let line = &lines[pos.line as usize];
    assert(line@ == ls[pos.line as int]);
    match utf16_to_char_column(line.as_slice(), pos.character) {
        None => {
            let mut m = owned("the ");
            m.append(what);
            m.append(" names UTF-16 offset ");
            m.append(decimal_string(pos.character as u64).as_str());
            m.append(" in line ");
            m.append(decimal_string(pos.line as u64).as_str());
            m.append(", which is not a character boundary of that line");
            Err(invalid_range_diagnostic(m))
        },
        Some(col) => Ok((pos.line + 1, col)),
    }
}

/// A provider range over `text` as a Wright edit range.
pub fn to_edit_range(text: &str, range: Range) -> (r: Result<EditRange, Diagnostic>)
    requires
        text@.len() < 0x7fff_ffff,
    ensures
        match edit_range_of(text@, range) {
            Ok(er) => r == Ok::<EditRange, Diagnostic>(er),
            Err(m) => r matches Err(d) && invalid_range(d, m),
        },
{
    let chars = chars_of(text);
    let lines = split_lines_exec(chars.as_slice());
    proof {
        lemma_split_lines_bounds(text@);
        assert forall|i: int| 0 <= i < lines@.len() implies #[trigger] lines@[i]@.len() < u32::MAX by {
            assert(lines@[i]@ == split_lines(text@)[i]);
        }
    }
    let start = match position_to_column(&lines, range.start, "range start") {
        Ok(c) => c,
        Err(d) => {
            return Err(d);
        },
    };
    let end = match position_to_column(&lines, range.end, "range end") {
        Ok(c) => c,
        Err(d) => {
            return Err(d);
        },
    };
    if start.0 > end.0 || (start.0 == end.0 && start.1 > end.1) {
        let mut m = owned("the provider edit range ");
        m.append(decimal_string(range.start.line as u64).as_str());
        m.append("-");
        m.append(decimal_string(range.start.character as u64).as_str());
        m.append(":");
        m.append(decimal_string(range.end.line as u64).as_str());
        m.append("-");
        m.append(decimal_string(range.end.character as u64).as_str());
        m.append(" is not a valid range of the document");
        return Err(invalid_range_diagnostic(m));
    }
    Ok(EditRange { start_line: start.0, start_col: start.1, end_line: end.0, end_col: end.1 })
}

pub open spec fn column_line_message(line: u32, n: nat) -> Seq<char> {
    "the edit names line "@ + decimal(line as nat) + ", but the document has "@ + decimal(n)
        + " lines"@
}

pub open spec fn outside_line_message(line: u32, column: u32, count: nat) -> Seq<char> {
    "the edit names column "@ + decimal(column as nat) + " in line "@ + decimal(line as nat)
        + ", which is outside that line (line "@ + decimal(line as nat) + " has "@ + decimal(count)
        + " characters)"@
}

/// A Wright (line, column) as a provider position, or why it names none.
pub open spec fn column_position(lines: Seq<Seq<char>>, line: u32, column: u32) -> Result<
    Position,
    Seq<char>,
> {
    let idx: int = if line == 0 {
        0
    } else {
        line - 1
    };
    if idx >= lines.len() {
        Err(column_line_message(line, lines.len()))
    } else {
        match column_units(lines[idx], column as int) {
            None => Err(outside_line_message(line, column, lines[idx].len())),
            Some(u) => Ok(Position { line: idx as u32, character: u as u32 }),
        }
    }
}

/// A Wright edit range over `text` as a provider range.
pub open spec fn text_range_of(text: Seq<char>, r: EditRange) -> Result<Range, Seq<char>> {
    let lines = split_lines(text);
    match column_position(lines, r.start_line, r.start_col) {
        Err(m) => Err(m),
        Ok(s) => match column_position(lines, r.end_line, r.end_col) {
            Err(m) => Err(m),
            Ok(e) => Ok(Range { start: s, end: e }),
        },
    }
}

fn column_to_position(lines: &Vec<Vec<char>>, line: u32, column: u32) -> (r: Result<
    Position,
    Diagnostic,
>)
    requires
        lines@.len() < u32::MAX,
        forall|i: int| 0 <= i < lines@.len() ==> #[trigger] lines@[i]@.len() <= 0x7fff_ffff,
    ensures
        match column_position(crate::text::views(lines@), line, column) {
            Ok(p) => r == Ok::<Position, Diagnostic>(p),
            Err(m) => r matches Err(d) && invalid_range(d, m),
        },
{
    let idx: u32 = if line == 0 {
        0
    } else {
        line - 1
    };
    if idx as usize >= lines.len() {
        let mut m = owned("the edit names line ");
        m.append(decimal_string(line as u64).as_str());
        m.append(", but the document has ");
        m.append(decimal_string(lines.len() as u64).as_str());
        m.append(" lines");
        return Err(invalid_range_diagnostic(m));
    }
    let text = &lines[idx as usize];
    match char_column_to_utf16(text.as_slice(), column) {
        None => {
            let mut m = owned("the edit names column ");
            m.append(decimal_string(column as u64).as_str());
            m.append(" in line ");
            m.append(decimal_string(line as u64).as_str());
            m.append(", which is outside that line (line ");
            m.append(decimal_string(line as u64).as_str());
            m.append(" has ");
            m.append(decimal_string(text.len() as u64).as_str());
            m.append(" characters)");
            Err(invalid_range_diagnostic(m))
        },
        Some(u) => Ok(Position { line: idx, character: u }),
    }
}

/// A Wright edit over `text` as a provider edit.
pub fn to_text_edit(text: &str, edit: &SourceEdit) -> (r: Result<LppTextEdit, Diagnostic>)
    requires
        text@.len() < 0x7fff_ffff,
    ensures
        match text_range_of(text@, edit.range) {
            Ok(rg) => r matches Ok(t) && t.range == rg && t.new_text@ == edit.new_text@,
            Err(m) => r matches Err(d) && invalid_range(d, m),
        },
{
    let chars = chars_of(text);
    let lines = split_lines_exec(chars.as_slice());
    proof {
        lemma_split_lines_bounds(text@);
        assert forall|i: int| 0 <= i < lines@.len() implies #[trigger] lines@[i]@.len()
            <= 0x7fff_ffff by {
            assert(lines@[i]@ == split_lines(text@)[i]);
        }
    }
    let start = match column_to_position(&lines, edit.range.start_line, edit.range.start_col) {
        Ok(p) => p,
        Err(d) => {
            return Err(d);
        },
    };
    let end = match column_to_position(&lines, edit.range.end_line, edit.range.end_col) {
        Ok(p) => p,
        Err(d) => {
            return Err(d);
        },
    };
    Ok(LppTextEdit { range: Range { start, end }, new_text: edit.new_text.clone() })
}

/// A character boundary's column converts back to the same UTF-16 offset.
proof fn lemma_units_column_back(line: Seq<char>, units: int)
    requires
        units_column(line, units) is Some,
    ensures
        column_units(line, units_column(line, units)->0) == Some(units),
{
    let k = choose|k: int| 0 <= k <= line.len() && utf16_length(#[trigger] line.take(k)) == units;
    assert(0 <= k <= line.len() && utf16_length(line.take(k)) == units);
}

/// A column's UTF-16 offset converts back to the same column.
proof fn lemma_column_units_back(line: Seq<char>, column: int)
    requires
        column_units(line, column) is Some,
    ensures
        units_column(line, column_units(line, column)->0) == Some(column),
{
    let u = column_units(line, column)->0;
    assert(utf16_length(line.take(column - 1)) == u);
    assert forall|k: int|
        0 <= k <= line.len() && utf16_length(#[trigger] line.take(k)) == u implies k == column
        - 1 by {
        if k < column - 1 {
            lemma_utf16_take_increasing(line, k, column - 1);
        }
        if k > column - 1 {
            lemma_utf16_take_increasing(line, column - 1, k);
        }
    }
}

/// A provider range that names a Wright edit range converts back to itself:
/// Wright's columns lose nothing of the provider's UTF-16 offsets.
pub proof fn law_provider_range_round_trip(text: Seq<char>, r: Range)
    requires
        text.len() < 0x7fff_ffff,
        edit_range_of(text, r) is Ok,
    ensures
        text_range_of(text, edit_range_of(text, r)->Ok_0) == Ok::<Range, Seq<char>>(r),
{
    let lines = split_lines(text);
    lemma_split_lines_bounds(text);
    let ls = lines[r.start.line as int];
    let le = lines[r.end.line as int];
    lemma_units_column_back(ls, r.start.character as int);
    lemma_units_column_back(le, r.end.character as int);
    let sc = units_column(ls, r.start.character as int)->0;
    let ec = units_column(le, r.end.character as int)->0;
    lemma_units_column_bound(ls, r.start.character as int);
    lemma_units_column_bound(le, r.end.character as int);
    let er = edit_range_of(text, r)->Ok_0;
    assert(er.start_line == r.start.line + 1 && er.start_col == sc);
    assert(er.end_line == r.end.line + 1 && er.end_col == ec);
    assert(column_position(lines, er.start_line, er.start_col) == Ok::<Position, Seq<char>>(
        r.start,
    ));
    assert(column_position(lines, er.end_line, er.end_col) == Ok::<Position, Seq<char>>(r.end));
}

proof fn lemma_units_column_bound(line: Seq<char>, units: int)
    requires
        units_column(line, units) is Some,
    ensures
        1 <= units_column(line, units)->0 <= line.len() + 1,
{
    let k = choose|k: int| 0 <= k <= line.len() && utf16_length(#[trigger] line.take(k)) == units;
    assert(0 <= k <= line.len() && utf16_length(line.take(k)) == units);
}

/// A Wright edit range with 1-based lines, start before end, that names a
/// provider range converts back to itself.
pub proof fn law_wright_range_round_trip(text: Seq<char>, er: EditRange)
    requires
        text.len() < 0x7fff_ffff,
        er.start_line >= 1,
        er.end_line >= 1,
        er.start_line < er.end_line || (er.start_line == er.end_line && er.start_col
            <= er.end_col),
        text_range_of(text, er) is Ok,
    ensures
        edit_range_of(text, text_range_of(text, er)->Ok_0) == Ok::<EditRange, Seq<char>>(er),
{
    let lines = split_lines(text);
    lemma_split_lines_bounds(text);
    let ls = lines[er.start_line - 1];
    let le = lines[er.end_line - 1];
    lemma_column_units_back(ls, er.start_col as int);
    lemma_column_units_back(le, er.end_col as int);
    lemma_utf16_length_bound(ls.take(er.start_col - 1));
    lemma_utf16_length_bound(le.take(er.end_col - 1));
    let r = text_range_of(text, er)->Ok_0;
    assert(r.start.line == er.start_line - 1);
    assert(r.end.line == er.end_line - 1);
    assert(r.start.character == utf16_length(ls.take(er.start_col - 1)));
    assert(r.end.character == utf16_length(le.take(er.end_col - 1)));
    assert(position_column(lines, r.start, "range start"@) == Ok::<(int, int), Seq<char>>(
        (er.start_line as int, er.start_col as int),
    ));
    assert(position_column(lines, r.end, "range end"@) == Ok::<(int, int), Seq<char>>(
        (er.end_line as int, er.end_col as int),
    ));
}

// ---------------------------------------------------------------------------
// Document sets.
// ---------------------------------------------------------------------------

/// The documents of a provider request, keyed by URI.
#[derive(Debug, Clone)]
pub struct DocumentSet {
    documents: Vec<LppDocument>,
}

pub open spec fn distinct_uris(ds: Seq<LppDocument>) -> bool {
    forall|i: int, j: int| 0 <= i < j < ds.len() ==> ds[i].uri@ != ds[j].uri@
}

/// The document of a URI, if the set has one.
pub open spec fn lookup_doc(ds: Seq<LppDocument>, uri: Seq<char>) -> Option<LppDocument> {
    if exists|i: int| 0 <= i < ds.len() && #[trigger] ds[i].uri@ == uri {
        Some(ds[choose|i: int| 0 <= i < ds.len() && #[trigger] ds[i].uri@ == uri])
    } else {
        None
    }
}

/// The set after `d` is stored under its URI: it replaces the document of
/// that URI, or joins the set.
pub open spec fn insert_doc(ds: Seq<LppDocument>, d: LppDocument) -> Seq<LppDocument> {
    if exists|i: int| 0 <= i < ds.len() && #[trigger] ds[i].uri@ == d.uri@ {
        ds.update(choose|i: int| 0 <= i < ds.len() && #[trigger] ds[i].uri@ == d.uri@, d)
    } else {
        ds.push(d)
    }
}

/// Every document text is short enough for 32-bit line and column numbers.
pub open spec fn texts_bounded(ds: Seq<LppDocument>) -> bool {
    forall|i: int| 0 <= i < ds.len() ==> (#[trigger] ds[i]).text@.len() < 0x7fff_ffff
}

/// With distinct URIs, the document found at an index is the one of its URI.
proof fn lemma_lookup_at(ds: Seq<LppDocument>, i: int)
    requires
        distinct_uris(ds),
        0 <= i < ds.len(),
    ensures
        lookup_doc(ds, ds[i].uri@) == Some(ds[i]),
{
    let j = choose|j: int| 0 <= j < ds.len() && #[trigger] ds[j].uri@ == ds[i].uri@;
    assert(ds[i].uri@ == ds[i].uri@);
    assert(j == i);
}

impl DocumentSet {
    pub closed spec fn docs(&self) -> Seq<LppDocument> {
        self.documents@
    }

    pub closed spec fn wf(&self) -> bool {
        distinct_uris(self.documents@)
    }

    pub fn new() -> (r: DocumentSet)
        ensures
            r.wf(),
            r.docs() == Seq::<LppDocument>::empty(),
    {
        DocumentSet { documents: Vec::new() }
    }

    /// Stores a document under its URI.
    pub fn insert(&mut self, doc: LppDocument)
        requires
            old(self).wf(),
        ensures
            final(self).wf(),
            final(self).docs() == insert_doc(old(self).docs(), doc),
    {
        let mut i: usize = 0;
        while i < self.documents.len()
            invariant
                i <= self.documents@.len(),
                self.documents@ == old(self).documents@,
                distinct_uris(self.documents@),
                forall|k: int| 0 <= k < i ==> self.documents@[k].uri@ != doc.uri@,
            decreases self.documents@.len() - i,
        {
            if str_eq(self.documents[i].uri.as_str(), doc.uri.as_str()) {
                proof {
                    let j = choose|j: int|
                        0 <= j < self.documents@.len() && #[trigger] self.documents@[j].uri@
                            == doc.uri@;
                    assert(self.documents@[i as int].uri@ == doc.uri@);
                    if j != i {
                        assert(self.documents@[j].uri@ != self.documents@[i as int].uri@);
                    }
                }
                self.documents.set(i, doc);
                return;
            }
            i = i + 1;
        }
        self.documents.push(doc);
    }

    /// The document of a URI.
    pub fn get(&self, uri: &str) -> (r: Option<&LppDocument>)
        requires
            self.wf(),
        ensures
            match lookup_doc(self.docs(), uri@) {
                Some(d) => r == Some(&d),
                None => r is None,
            },
    {
        let mut i: usize = 0;
        while i < self.documents.len()
            invariant
                i <= self.documents@.len(),
                self.wf(),
                forall|k: int| 0 <= k < i ==> self.documents@[k].uri@ != uri@,
            decreases self.documents@.len() - i,
        {
            if str_eq(self.documents[i].uri.as_str(), uri) {
                proof {
                    lemma_lookup_at(self.documents@, i as int);
                }
                return Some(&self.documents[i]);
            }
            i = i + 1;
        }
        None
    }

    /// A copy of the set, document for document.
    pub fn copy(&self) -> (r: DocumentSet)
        ensures
            r.docs() == self.docs(),
            r.wf() == self.wf(),
    {
        let mut documents: Vec<LppDocument> = Vec::new();
        let mut i: usize = 0;
        while i < self.documents.len()
            invariant
                i <= self.documents@.len(),
                documents@ == self.documents@.subrange(0, i as int),
            decreases self.documents@.len() - i,
        {
            documents.push(copy_document(&self.documents[i]));
            i = i + 1;
            proof {
                assert(documents@ =~= self.documents@.subrange(0, i as int));
            }
        }
        proof {
            assert(documents@ =~= self.documents@);
        }
        DocumentSet { documents }
    }

    /// The documents, in insertion order.
    pub fn documents(&self) -> (r: &[LppDocument])
        ensures
            r@ == self.docs(),
    {
        self.documents.as_slice()
    }
}

// ---------------------------------------------------------------------------
// Provider rename edits as Wright edits.
// ---------------------------------------------------------------------------

/// The decimal rendering of a signed number.
pub open spec fn signed_decimal(n: int) -> Seq<char> {
    if n < 0 {
        "-"@ + decimal((-n) as nat)
    } else {
        decimal(n as nat)
    }
}

fn signed_decimal_string(n: i32) -> (r: String)
    ensures
        r@ == signed_decimal(n as int),
{
    if n < 0 {
        let mut r = owned("-");
        let m: i64 = -(n as i64);
        r.append(decimal_string(m as u64).as_str());
        r
    } else {
        decimal_string(n as u64)
    }
}

/// The wanted Wright edit: its source, the identity of the text it was
/// computed against, its range and its replacement.
pub type EditSpec = (Seq<char>, Seq<char>, EditRange, Seq<char>);

/// `e` is the rename edit `s` describes.
pub open spec fn realizes(e: SourceEdit, s: EditSpec) -> bool {
    &&& e.edit_kind@ == "rename"@
    &&& e.source@ == s.0
    &&& e.source_identity@ == s.1
    &&& e.range == s.2
    &&& e.new_text@ == s.3
}

/// The Wright edits of one document's provider edits, or the first range
/// that names none.
pub open spec fn text_edits_outcome(doc: LppDocument, tes: Seq<LppTextEdit>) -> Result<
    Seq<EditSpec>,
    Seq<char>,
>
    decreases tes.len(),
{
    if tes.len() == 0 {
        Ok(Seq::<EditSpec>::empty())
    } else {
        match text_edits_outcome(doc, tes.drop_last()) {
            Err(m) => Err(m),
            Ok(prev) => match edit_range_of(doc.text@, tes.last().range) {
                Err(m) => Err(m),
                Ok(r) => Ok(
                    prev.push((doc.uri@, crate::identity_of(doc.text@), r, tes.last().new_text@)),
                ),
            },
        }
    }
}

pub open spec fn outside_set_message(uri: Seq<char>) -> Seq<char> {
    "the provider returned edits for '"@ + uri
        + "', which is not in the request document set"@
}

pub open spec fn stale_rename_message(uri: Seq<char>, computed: i32, current: i32) -> Seq<char> {
    "the provider computed edits for '"@ + uri + "' against version "@ + signed_decimal(
        computed as int,
    ) + ", but the current version is "@ + signed_decimal(current as int)
        + "; re-fetch the source and retry"@
}

/// The Wright edits of one document's provider edits, or the refusal: the
/// document is not in the request, or the edits were computed against
/// another version, or a range names no Wright range.
pub open spec fn doc_edits_outcome(docs: Seq<LppDocument>, de: DocumentEdits) -> Result<
    Seq<EditSpec>,
    DiagSpec,
> {
    match lookup_doc(docs, de.document_uri@) {
        None => Err(
            ("provider-edit-outside-set"@, Stage::Discovery, outside_set_message(de.document_uri@)),
        ),
        Some(d) => if de.version != d.version {
            Err(
                (
                    "edit-stale-source"@,
                    Stage::Discovery,
                    stale_rename_message(de.document_uri@, de.version, d.version),
                ),
            )
        } else {
            match text_edits_outcome(d, de.text_edits@) {
                Err(m) => Err(("edit-invalid-range"@, Stage::Discovery, m)),
                Ok(es) => Ok(es),
            }
        },
    }
}

/// The Wright edits of a provider rename answer, document by document, or
/// the first refusal.
pub open spec fn rename_outcome(docs: Seq<LppDocument>, des: Seq<DocumentEdits>) -> Result<
    Seq<EditSpec>,
    DiagSpec,
>
    decreases des.len(),
{
    if des.len() == 0 {
        Ok(Seq::<EditSpec>::empty())
    } else {
        match rename_outcome(docs, des.drop_last()) {
            Err(d) => Err(d),
            Ok(prev) => match doc_edits_outcome(docs, des.last()) {
                Err(d) => Err(d),
                Ok(es) => Ok(prev + es),
            },
        }
    }
}

/// The edits are, in order, those the descriptions describe.
pub open spec fn realizes_all(es: Seq<SourceEdit>, ss: Seq<EditSpec>) -> bool {
    &&& es.len() == ss.len()
    &&& forall|i: int| 0 <= i < es.len() ==> #[trigger] realizes(es[i], ss[i])
}

fn doc_rename_edits(doc: &LppDocument, tes: &Vec<LppTextEdit>, out: &mut Vec<SourceEdit>) -> (r:
    Result<(), Diagnostic>)
    requires
        doc.text@.len() < 0x7fff_ffff,
    ensures
        match text_edits_outcome(*doc, tes@) {
            Ok(ss) => {
                &&& r is Ok
                &&& old(out)@.len() <= final(out)@.len()
                &&& realizes_all(
                    final(out)@.subrange(old(out)@.len() as int, final(out)@.len() as int),
                    ss,
                )
                &&& final(out)@.subrange(0, old(out)@.len() as int) == old(out)@
            },
            Err(m) => r matches Err(d) && invalid_range(d, m),
        },
{
    let identity = crate::input_identity(doc.text.as_str());
    let ghost start = out@.len();
    let mut k: usize = 0;
    while k < tes.len()
        invariant
            k <= tes@.len(),
            doc.text@.len() < 0x7fff_ffff,
            identity@ == crate::identity_of(doc.text@),
            start == old(out)@.len(),
            start <= out@.len(),
            out@.subrange(0, start as int) == old(out)@,
            text_edits_outcome(*doc, tes@.take(k as int)) matches Ok(ss) && realizes_all(
                out@.subrange(start as int, out@.len() as int),
                ss,
            ),
        decreases tes@.len() - k,
    {
        assert(tes@.take(k + 1).drop_last() =~= tes@.take(k as int));
        let te = &tes[k];
        match to_edit_range(doc.text.as_str(), te.range) {
            Err(d) => {
                proof {
                    lemma_text_edits_error_persists(*doc, tes@, k + 1);
                }
                return Err(d);
            },
            Ok(range) => {
                let ghost before = out@;
                out.push(
                    SourceEdit {
                        edit_kind: owned("rename"),
                        source: doc.uri.clone(),
                        source_identity: identity.clone(),
                        range,
                        new_text: te.new_text.clone(),
                    },
                );
                assert(out@.subrange(0, start as int) =~= before.subrange(0, start as int));
                assert(out@.subrange(start as int, out@.len() as int) =~= before.subrange(
                    start as int,
                    before.len() as int,
                ).push(out@.last()));
            },
        }
        k = k + 1;
    }
    assert(tes@.take(k as int) =~= tes@);
    Ok(())
}

/// Once a prefix of the provider edits fails, every longer prefix fails the
/// same way.
proof fn lemma_text_edits_error_persists(doc: LppDocument, tes: Seq<LppTextEdit>, k: int)
    requires
        0 <= k <= tes.len(),
        text_edits_outcome(doc, tes.take(k)) is Err,
    ensures
        text_edits_outcome(doc, tes) == text_edits_outcome(doc, tes.take(k)),
    decreases tes.len() - k,
{
    if k < tes.len() {
        assert(tes.take(k + 1).drop_last() =~= tes.take(k));
        lemma_text_edits_error_persists(doc, tes, k + 1);
    } else {
        assert(tes.take(k) =~= tes);
    }
}

/// Once a prefix of the document edits is refused, every longer prefix is
/// refused the same way.
proof fn lemma_rename_error_persists(docs: Seq<LppDocument>, des: Seq<DocumentEdits>, k: int)
    requires
        0 <= k <= des.len(),
        rename_outcome(docs, des.take(k)) is Err,
    ensures
        rename_outcome(docs, des) == rename_outcome(docs, des.take(k)),
    decreases des.len() - k,
{
    if k < des.len() {
        assert(des.take(k + 1).drop_last() =~= des.take(k));
        lemma_rename_error_persists(docs, des, k + 1);
    } else {
        assert(des.take(k) =~= des);
    }
}

/// The Wright rename edits of a provider rename answer: each document's
/// edits, in answer order, against the text and identity of the request's
/// document of that URI.
pub fn rename_edits(docs: &DocumentSet, result: &RenameResult) -> (r: Result<
    Vec<SourceEdit>,
    Diagnostic,
>)
    requires
        docs.wf(),
        texts_bounded(docs.docs()),
    ensures
        match rename_outcome(docs.docs(), result.edits@) {
            Ok(ss) => r matches Ok(es) && realizes_all(es@, ss),
            Err(d) => r matches Err(x) && describes(x, d),
        },
{
    let mut out: Vec<SourceEdit> = Vec::new();
    let mut i: usize = 0;
    while i < result.edits.len()
        invariant
            i <= result.edits@.len(),
            docs.wf(),
            texts_bounded(docs.docs()),
            rename_outcome(docs.docs(), result.edits@.take(i as int)) matches Ok(ss)
                && realizes_all(out@, ss),
        decreases result.edits@.len() - i,
    {
        let de = &result.edits[i];
        assert(result.edits@.take(i + 1).drop_last() =~= result.edits@.take(i as int));
        assert(result.edits@.take(i + 1).last() == *de);
        let doc = match docs.get(de.document_uri.as_str()) {
            Some(d) => d,
            None => {
                let mut m = owned("the provider returned edits for '");
                m.append(de.document_uri.as_str());
                m.append("', which is not in the request document set");
                proof {
                    lemma_rename_error_persists(docs.docs(), result.edits@, i + 1);
                }
                return Err(Diagnostic::error("provider-edit-outside-set", Stage::Discovery, m.as_str()));
            },
        };
        proof {
            let j = choose|j: int|
                0 <= j < docs.docs().len() && #[trigger] docs.docs()[j].uri@ == de.document_uri@;
            assert(docs.docs()[j] == *doc);
        }
        if de.version != doc.version {
            let mut m = owned("the provider computed edits for '");
            m.append(de.document_uri.as_str());
            m.append("' against version ");
            m.append(signed_decimal_string(de.version).as_str());
            m.append(", but the current version is ");
            m.append(signed_decimal_string(doc.version).as_str());
            m.append("; re-fetch the source and retry");
            proof {
                lemma_rename_error_persists(docs.docs(), result.edits@, i + 1);
            }
            return Err(Diagnostic::error("edit-stale-source", Stage::Discovery, m.as_str()));
        }
        let ghost before = out@;
        match doc_rename_edits(doc, &de.text_edits, &mut out) {
            Err(d) => {
                proof {
                    lemma_rename_error_persists(docs.docs(), result.edits@, i + 1);
                }
                return Err(d);
            },
            Ok(()) => {
                proof {
                    let prev = rename_outcome(docs.docs(), result.edits@.take(i as int))->Ok_0;
                    let es = text_edits_outcome(*doc, de.text_edits@)->Ok_0;
                    assert(out@ =~= before + out@.subrange(before.len() as int, out@.len() as int));
                    assert forall|k: int| 0 <= k < out@.len() implies #[trigger] realizes(
                        out@[k],
                        (prev + es)[k],
                    ) by {
                        if k < before.len() {
                            assert(out@[k] == out@.subrange(0, before.len() as int)[k]);
                        } else {
                            assert(out@[k] == out@.subrange(before.len() as int, out@.len() as int)[k
                                - before.len()]);
                        }
                    }
                }
            },
        }
        i = i + 1;
    }
    assert(result.edits@.take(i as int) =~= result.edits@);
    Ok(out)
}

// ---------------------------------------------------------------------------
// Mutations and refusals.
// ---------------------------------------------------------------------------

/// The outcome of a provider-backed edit: the checked transaction and its
/// previews, or a refusal with its diagnostics and, when the provider
/// failed, the provider's code and message.
#[derive(Debug, Clone)]
pub struct ProviderMutation {
    pub ok: bool,
    pub transaction: Option<EditTransaction>,
    pub diagnostics: Vec<Diagnostic>,
    pub preview: Option<Vec<SourcePreview>>,
    pub provider_code: Option<String>,
    pub provider_message: Option<String>,
}

/// `m` refuses with exactly the diagnostic `d` and no provider information.
pub open spec fn refuses_with(m: ProviderMutation, d: Diagnostic) -> bool {
    &&& !m.ok
    &&& m.transaction is None
    &&& m.preview is None
    &&& m.diagnostics@ == seq![d]
    &&& m.provider_code is None
    &&& m.provider_message is None
}

/// The diagnostic a failed provider request becomes.
pub open spec fn failure_spec(f: ProviderFailure) -> DiagSpec {
    match f.refusal_code {
        Some(c) => (
            "provider-refusal"@,
            Stage::Discovery,
            "the provider refused the request ("@ + c@ + "): "@ + f.message@,
        ),
        None => (
            "provider-error"@,
            Stage::Discovery,
            "the provider failed the request ("@ + f.code@ + "): "@ + f.message@,
        ),
    }
}

/// The provider code a failure is reported with: its refusal code, else its
/// error code.
pub open spec fn failure_code(f: ProviderFailure) -> Seq<char> {
    match f.refusal_code {
        Some(c) => c@,
        None => f.code@,
    }
}

/// `m` refuses because the provider request failed with `f`.
pub open spec fn failure_refusal(m: ProviderMutation, f: ProviderFailure) -> bool {
    &&& !m.ok
    &&& m.transaction is None
    &&& m.preview is None
    &&& m.diagnostics@.len() == 1
    &&& describes(m.diagnostics@[0], failure_spec(f))
    &&& m.provider_code matches Some(c) && c@ == failure_code(f)
    &&& m.provider_message matches Some(x) && x@ == f.message@
}

fn refusal(d: Diagnostic) -> (m: ProviderMutation)
    ensures
        refuses_with(m, d),
{
    let mut diagnostics: Vec<Diagnostic> = Vec::new();
    diagnostics.push(d);
    assert(diagnostics@ =~= seq![d]);
    ProviderMutation {
        ok: false,
        transaction: None,
        diagnostics,
        preview: None,
        provider_code: None,
        provider_message: None,
    }
}

/// The refusal of a failed provider request: one diagnostic, and the
/// provider's code and message passed through.
pub fn provider_failure(error: &ProviderFailure) -> (m: ProviderMutation)
    ensures
        failure_refusal(m, *error),
{
    let d = match &error.refusal_code {
        Some(c) => {
            let mut msg = owned("the provider refused the request (");
            msg.append(c.as_str());
            msg.append("): ");
            msg.append(error.message.as_str());
            Diagnostic::error("provider-refusal", Stage::Discovery, msg.as_str())
        },
        None => {
            let mut msg = owned("the provider failed the request (");
            msg.append(error.code.as_str());
            msg.append("): ");
            msg.append(error.message.as_str());
            Diagnostic::error("provider-error", Stage::Discovery, msg.as_str())
        },
    };
    let code = match &error.refusal_code {
        Some(c) => c.clone(),
        None => error.code.clone(),
    };
    let mut diagnostics: Vec<Diagnostic> = Vec::new();
    diagnostics.push(d);
    ProviderMutation {
        ok: false,
        transaction: None,
        diagnostics,
        preview: None,
        provider_code: Some(code),
        provider_message: Some(error.message.clone()),
    }
}

// ---------------------------------------------------------------------------
// Transactions.
// ---------------------------------------------------------------------------

/// What normalizing a list of edits into a transaction comes to (see
/// [`EditTransaction::new`]).
pub open spec fn new_outcome(edits: Seq<SourceEdit>, r: Result<EditTransaction, Diagnostic>) -> bool {
    &&& edits.len() == 0 ==> (r matches Err(d) && plain_diagnostic(
        d,
        "edit-empty-transaction"@,
        Stage::Discovery,
        Severity::Error,
        empty_transaction_message(),
    ))
    &&& edits.len() > 0 ==> (r is Ok <==> no_conflict_before(
        sorted_keys(edits),
        sorted_keys(edits).len() as int,
    ))
    &&& r matches Ok(t) ==> {
        &&& t.edits@.to_multiset() == edits.to_multiset()
        &&& edit_keys(t.edits@) == sorted_keys(edits)
    }
    &&& edits.len() > 0 ==> (r matches Err(d) ==> exists|i: int|
        #![trigger sorted_keys(edits)[i]]
        {
            &&& 0 <= i && i + 1 < sorted_keys(edits).len()
            &&& no_conflict_before(sorted_keys(edits), i)
            &&& pair_conflict(sorted_keys(edits)[i], sorted_keys(edits)[i + 1]) matches Some(c)
                && plain_diagnostic(
                d,
                conflict_code(c),
                Stage::Discovery,
                Severity::Error,
                conflict_message(sorted_keys(edits)[i], sorted_keys(edits)[i + 1], c),
            )
        })
}

/// How a transaction's version preconditions and its application end: the
/// first precondition failure in edit order; else the first source, in
/// code-point order, whose edits do not apply; else the previews of every
/// edited source.
pub open spec fn checked_outcome(
    texts: Map<Seq<char>, Seq<char>>,
    es: Seq<SourceEdit>,
    r: Result<Vec<SourcePreview>, Diagnostic>,
) -> bool {
    let failures = precondition_failures(texts, es);
    if failures.len() > 0 {
        r matches Err(d) && describes(d, failures[0])
    } else if all_sources_apply(texts, es) {
        r matches Ok(ps) && texts_cover(texts, es) && previews_of(texts, es, ps@)
    } else {
        r matches Err(d) && exists|s: Seq<char>|
            first_failing_source(texts, es, s) && invalid_range(
                d,
                #[trigger] source_result(texts, es, s)->Err_0,
            )
    }
}

/// Checks a transaction's version preconditions against the current texts,
/// then applies it.
fn check_and_apply(sources: &SourceTexts, t: &EditTransaction) -> (r: Result<
    Vec<SourcePreview>,
    Diagnostic,
>)
    requires
        sources.wf(),
    ensures
        checked_outcome(sources@, t.edits@, r),
{
    let mut failures = check_preconditions(sources, t.edits.as_slice());
    if failures.len() > 0 {
        let d = failures.swap_remove(0);
        return Err(d);
    }
    t.apply(sources)
}

// ---------------------------------------------------------------------------
// The provider's validation gates.
// ---------------------------------------------------------------------------

/// The provider ranges and replacements of the edits of source `s`, in
/// transaction order, over `text`; or the first range that names none.
pub open spec fn group_ranges(text: Seq<char>, es: Seq<SourceEdit>, s: Seq<char>) -> Result<
    Seq<(Range, Seq<char>)>,
    Seq<char>,
>
    decreases es.len(),
{
    if es.len() == 0 {
        Ok(Seq::<(Range, Seq<char>)>::empty())
    } else {
        match group_ranges(text, es.drop_last(), s) {
            Err(m) => Err(m),
            Ok(prev) => if es.last().source@ == s {
                match text_range_of(text, es.last().range) {
                    Err(m) => Err(m),
                    Ok(r) => Ok(prev.push((r, es.last().new_text@))),
                }
            } else {
                Ok(prev)
            },
        }
    }
}

pub open spec fn unknown_document_message(s: Seq<char>) -> Seq<char> {
    "the transaction targets '"@ + s + "' but the request document set has no current text for it"@
}

/// What the provider is asked to validate for source `s`: its document and
/// its edits in provider coordinates; or the refusal when the request has no
/// document for it or an edit names no provider range.
pub open spec fn group_request(docs: Seq<LppDocument>, es: Seq<SourceEdit>, s: Seq<char>) -> Result<
    (LppDocument, Seq<(Range, Seq<char>)>),
    DiagSpec,
> {
    match lookup_doc(docs, s) {
        None => Err(("edit-unknown-source"@, Stage::Discovery, unknown_document_message(s))),
        Some(d) => match group_ranges(d.text@, es, s) {
            Err(m) => Err(("edit-invalid-range"@, Stage::Discovery, m)),
            Ok(rs) => Ok((d, rs)),
        },
    }
}

/// The provider edits are those the pairs describe.
pub open spec fn text_edits_match(edits: Seq<LppTextEdit>, specs: Seq<(Range, Seq<char>)>) -> bool {
    &&& edits.len() == specs.len()
    &&& forall|i: int|
        0 <= i < edits.len() ==> (#[trigger] edits[i]).range == specs[i].0 && edits[i].new_text@
            == specs[i].1
}

proof fn lemma_group_error_persists(text: Seq<char>, es: Seq<SourceEdit>, s: Seq<char>, k: int)
    requires
        0 <= k <= es.len(),
        group_ranges(text, es.take(k), s) is Err,
    ensures
        group_ranges(text, es, s) == group_ranges(text, es.take(k), s),
    decreases es.len() - k,
{
    if k < es.len() {
        assert(es.take(k + 1).drop_last() =~= es.take(k));
        lemma_group_error_persists(text, es, s, k + 1);
    } else {
        assert(es.take(k) =~= es);
    }
}

fn group_text_edits(doc: &LppDocument, es: &[SourceEdit], s: &str) -> (r: Result<
    Vec<LppTextEdit>,
    Diagnostic,
>)
    requires
        doc.text@.len() < 0x7fff_ffff,
    ensures
        match group_ranges(doc.text@, es@, s@) {
            Ok(sp) => r matches Ok(v) && text_edits_match(v@, sp),
            Err(m) => r matches Err(d) && invalid_range(d, m),
        },
{
    let mut out: Vec<LppTextEdit> = Vec::new();
    let mut k: usize = 0;
    while k < es.len()
        invariant
            k <= es@.len(),
            doc.text@.len() < 0x7fff_ffff,
            group_ranges(doc.text@, es@.take(k as int), s@) matches Ok(sp) && text_edits_match(
                out@,
                sp,
            ),
        decreases es@.len() - k,
    {
        assert(es@.take(k + 1).drop_last() =~= es@.take(k as int));
        let e = &es[k];
        if str_eq(e.source.as_str(), s) {
            match to_text_edit(doc.text.as_str(), e) {
                Err(d) => {
                    proof {
                        lemma_group_error_persists(doc.text@, es@, s@, k + 1);
                    }
                    return Err(d);
                },
                Ok(te) => {
                    out.push(te);
                },
            }
        }
        k = k + 1;
    }
    assert(es@.take(k as int) =~= es@);
    Ok(out)
}

pub open spec fn stale_validation_message(s: Seq<char>, validated: i32, current: i32) -> Seq<char> {
    "the provider validated edits for '"@ + s + "' against version "@ + signed_decimal(
        validated as int,
    ) + ", but the current version is "@ + signed_decimal(current as int)
        + "; re-fetch the source and retry"@
}

pub open spec fn refused_edits_message(s: Seq<char>, res: ValidateEditsResult) -> Seq<char> {
    "the provider refused the edits for '"@ + s + "': the edited source is "@ + match res.reason {
        Some(r) => r@,
        None => "invalid"@,
    } + match res.failing_edit_index {
        Some(i) => " (failing edit "@ + decimal(i as nat) + ")"@,
        None => Seq::<char>::empty(),
    }
}

/// The refusal a provider's verdict on the edits of source `s` (whose
/// document is `doc`) amounts to: a verdict about another version is stale;
/// an invalid verdict is a validation failure.
pub open spec fn verdict_refusal(s: Seq<char>, doc: LppDocument, res: ValidateEditsResult) -> Option<
    DiagSpec,
> {
    if res.version != doc.version {
        Some(
            (
                "edit-stale-source"@,
                Stage::Discovery,
                stale_validation_message(s, res.version, doc.version),
            ),
        )
    } else if !res.valid {
        Some(("provider-validation-failed"@, Stage::Discovery, refused_edits_message(s, res)))
    } else {
        None
    }
}

fn verdict(s: &str, doc: &LppDocument, res: &ValidateEditsResult) -> (r: Option<Diagnostic>)
    ensures
        match verdict_refusal(s@, *doc, *res) {
            Some(d) => r matches Some(x) && describes(x, d),
            None => r is None,
        },
{
    if res.version != doc.version {
        let mut m = owned("the provider validated edits for '");
        m.append(s);
        m.append("' against version ");
        m.append(signed_decimal_string(res.version).as_str());
        m.append(", but the current version is ");
        m.append(signed_decimal_string(doc.version).as_str());
        m.append("; re-fetch the source and retry");
        return Some(Diagnostic::error("edit-stale-source", Stage::Discovery, m.as_str()));
    }
    if !res.valid {
        let mut m = owned("the provider refused the edits for '");
        m.append(s);
        m.append("': the edited source is ");
        match &res.reason {
            Some(r) => m.append(r.as_str()),
            None => m.append("invalid"),
        }
        match res.failing_edit_index {
            Some(i) => {
                m.append(" (failing edit ");
                m.append(decimal_string(i).as_str());
                m.append(")");
            },
            None => {},
        }
        assert(m@ =~= refused_edits_message(s@, *res));
        return Some(Diagnostic::error("provider-validation-failed", Stage::Discovery, m.as_str()));
    }
    None
}

/// The edited text of a source, if a preview carries one.
pub open spec fn preview_text(ps: Seq<SourcePreview>, uri: Seq<char>) -> Option<Seq<char>> {
    if exists|i: int| 0 <= i < ps.len() && #[trigger] ps[i].source@ == uri {
        Some(ps[choose|i: int| 0 <= i < ps.len() && #[trigger] ps[i].source@ == uri].new_text@)
    } else {
        None
    }
}

/// `e` is document `d` of the edited project: with its preview text and the
/// next version when its source was edited, else unchanged.
pub open spec fn edited_doc(d: LppDocument, ps: Seq<SourcePreview>, e: LppDocument) -> bool {
    &&& e.uri@ == d.uri@
    &&& e.language_id@ == d.language_id@
    &&& match preview_text(ps, d.uri@) {
        Some(t) => e.text@ == t && e.version == d.version + 1,
        None => e.text@ == d.text@ && e.version == d.version,
    }
}

pub open spec fn edited_docs(ds: Seq<LppDocument>, ps: Seq<SourcePreview>, es: Seq<LppDocument>) -> bool {
    &&& es.len() == ds.len()
    &&& forall|i: int| 0 <= i < ds.len() ==> #[trigger] edited_doc(ds[i], ps, es[i])
}

/// Every document version can be advanced.
pub open spec fn versions_bounded(ds: Seq<LppDocument>) -> bool {
    forall|i: int| 0 <= i < ds.len() ==> (#[trigger] ds[i]).version < i32::MAX
}

/// The edited project: every request document, with the preview text of an
/// edited source and its version advanced.
fn edited_documents(docs: &DocumentSet, ps: &Vec<SourcePreview>) -> (r: DocumentSet)
    requires
        docs.wf(),
        versions_bounded(docs.docs()),
        crate::edit::strictly_sorted(crate::edit::preview_sources(ps@)),
    ensures
        r.wf(),
        edited_docs(docs.docs(), ps@, r.docs()),
{
    let mut out: Vec<LppDocument> = Vec::new();
    let mut i: usize = 0;
    while i < docs.documents.len()
        invariant
            i <= docs.documents@.len(),
            docs.wf(),
            versions_bounded(docs.docs()),
            crate::edit::strictly_sorted(crate::edit::preview_sources(ps@)),
            out@.len() == i,
            forall|k: int| 0 <= k < i ==> #[trigger] edited_doc(docs.documents@[k], ps@, out@[k]),
        decreases docs.documents@.len() - i,
    {
        let d = &docs.documents[i];
        let mut found: Option<usize> = None;
        let mut j: usize = 0;
        while j < ps.len()
            invariant
                j <= ps@.len(),
                found matches Some(x) ==> x < ps@.len() && ps@[x as int].source@ == d.uri@,
                found is None ==> forall|k: int| 0 <= k < j ==> ps@[k].source@ != d.uri@,
            decreases ps@.len() - j,
        {
            if found.is_none() && str_eq(ps[j].source.as_str(), d.uri.as_str()) {
                found = Some(j);
            }
            j = j + 1;
        }
        let e = match found {
            Some(x) => {
                proof {
                    let c = choose|c: int| 0 <= c < ps@.len() && #[trigger] ps@[c].source@ == d.uri@;
                    if c != x {
                        crate::edit::lemma_strictly_sorted_distinct(
                            crate::edit::preview_sources(ps@),
                            c,
                            x as int,
                        );
                    }
                }
                LppDocument {
                    uri: d.uri.clone(),
                    language_id: d.language_id.clone(),
                    version: d.version + 1,
                    text: ps[x].new_text.clone(),
                }
            },
            None => LppDocument {
                uri: d.uri.clone(),
                language_id: d.language_id.clone(),
                version: d.version,
                text: d.text.clone(),
            },
        };
        out.push(e);
        i = i + 1;
    }
    assert forall|a: int, b: int| 0 <= a < b < out@.len() implies out@[a].uri@ != out@[b].uri@ by {
        assert(edited_doc(docs.documents@[a], ps@, out@[a]));
        assert(edited_doc(docs.documents@[b], ps@, out@[b]));
    }
    DocumentSet { documents: out }
}

/// The message of the first error-severity diagnostic, if any.
pub open spec fn first_error_message(ds: Seq<LppDiagnostic>) -> Option<Seq<char>>
    decreases ds.len(),
{
    if ds.len() == 0 {
        None
    } else if ds[0].severity == LppSeverity::Error {
        Some(ds[0].message@)
    } else {
        first_error_message(ds.drop_first())
    }
}

/// The document and message of the first error-severity diagnostic of a
/// project check, if any.
pub open spec fn first_semantic_error(docs: Seq<DocumentDiagnostics>) -> Option<
    (Seq<char>, Seq<char>),
>
    decreases docs.len(),
{
    if docs.len() == 0 {
        None
    } else {
        match first_error_message(docs[0].diagnostics@) {
            Some(m) => Some((docs[0].uri@, m)),
            None => first_semantic_error(docs.drop_first()),
        }
    }
}

pub open spec fn semantic_error_spec(uri: Seq<char>, m: Seq<char>) -> DiagSpec {
    (
        "provider-semantic-error"@,
        Stage::Discovery,
        "the edited project is semantically invalid in '"@ + uri + "': "@ + m,
    )
}

fn first_error_in(ds: &Vec<LppDiagnostic>) -> (r: Option<&String>)
    ensures
        match first_error_message(ds@) {
            Some(m) => r matches Some(x) && x@ == m,
            None => r is None,
        },
{
    let mut i: usize = 0;
    assert(ds@.skip(0) =~= ds@);
    while i < ds.len()
        invariant
            i <= ds@.len(),
            first_error_message(ds@) == first_error_message(ds@.skip(i as int)),
        decreases ds@.len() - i,
    {
        assert(ds@.skip(i as int).drop_first() =~= ds@.skip(i + 1));
        assert(ds@.skip(i as int)[0] == ds@[i as int]);
        if ds[i].severity == LppSeverity::Error {
            return Some(&ds[i].message);
        }
        i = i + 1;
    }
    None
}

/// The refusal a project check amounts to: its first error-severity
/// diagnostic, if any.
fn semantic_error(checked: &CheckResult) -> (r: Option<Diagnostic>)
    ensures
        match first_semantic_error(checked.documents@) {
            Some(e) => r matches Some(d) && describes(d, semantic_error_spec(e.0, e.1)),
            None => r is None,
        },
{
    let docs = &checked.documents;
    let mut i: usize = 0;
    assert(docs@.skip(0) =~= docs@);
    while i < docs.len()
        invariant
            i <= docs@.len(),
            docs@ == checked.documents@,
            first_semantic_error(docs@) == first_semantic_error(docs@.skip(i as int)),
        decreases docs@.len() - i,
    {
        assert(docs@.skip(i as int).drop_first() =~= docs@.skip(i + 1));
        assert(docs@.skip(i as int)[0] == docs@[i as int]);
        match first_error_in(&docs[i].diagnostics) {
            Some(m) => {
                let mut msg = owned("the edited project is semantically invalid in '");
                msg.append(docs[i].uri.as_str());
                msg.append("': ");
                msg.append(m.as_str());
                assert(msg@ =~= semantic_error_spec(docs@[i as int].uri@, m@).2);
                let d = Diagnostic::error("provider-semantic-error", Stage::Discovery, msg.as_str());
                return Some(d);
            },
            None => {},
        }
        i = i + 1;
    }
    None
}

// ---------------------------------------------------------------------------
// The flow.
// ---------------------------------------------------------------------------

/// A provider rename request: the documents the provider sees, the position
/// of the symbol, the new name, the project root, and the caller's current
/// source texts that the resulting edits must still match.
#[derive(Debug, Clone)]
pub struct ProviderRenameRequest {
    pub documents: DocumentSet,
    pub position_document_uri: String,
    pub position: Position,
    pub new_name: String,
    pub project_root: Option<String>,
    pub sources: SourceTexts,
}

/// A caller-proposed transaction to run through the provider's gates.
#[derive(Debug, Clone)]
pub struct ProviderValidateRequest {
    pub documents: DocumentSet,
    pub transaction: EditTransaction,
    pub sources: SourceTexts,
    pub project_root: Option<String>,
}

/// Where a provider-backed edit stands.
#[derive(Debug)]
pub enum FlowState {
    /// Waiting for the provider's rename answer.
    AwaitRename,
    /// Waiting for the provider's verdict on the edits of the `group`-th
    /// edited source (in the order of the previews).
    Validating { transaction: EditTransaction, previews: Vec<SourcePreview>, group: usize },
    /// Waiting for the provider's check of the edited project.
    AwaitCheck { transaction: EditTransaction, previews: Vec<SourcePreview> },
    /// The mutation is decided.
    Finished,
}

/// What the caller reports after performing a provider request.
#[derive(Debug)]
pub enum ProviderEvent {
    /// The provider's rename answer.
    Renamed(Result<RenameResult, ProviderFailure>),
    /// The provider's verdict on one document's edits.
    Validated(Result<ValidateEditsResult, ProviderFailure>),
    /// The provider's check of the edited project.
    Checked(Result<CheckResult, ProviderFailure>),
}

/// What the caller performs next.
#[derive(Debug)]
pub enum ProviderAction {
    /// Ask the provider to rename the symbol at `position` of the document
    /// `position_document_uri` to `new_name`, over these documents.
    Rename {
        documents: DocumentSet,
        position_document_uri: String,
        position: Position,
        new_name: String,
        project_root: Option<String>,
    },
    /// Ask the provider to validate these edits of this document.
    ValidateEdits { document: LppDocument, edits: Vec<LppTextEdit> },
    /// Ask the provider to check the edited project.
    Check { documents: DocumentSet, project_root: Option<String> },
    /// The mutation is decided.
    Finish(ProviderMutation),
}

/// A provider-backed edit in progress.
#[derive(Debug)]
pub struct ProviderEditFlow {
    documents: DocumentSet,
    sources: SourceTexts,
    project_root: Option<String>,
    state: FlowState,
}

/// `m` refuses with one diagnostic that `d` describes, and no provider
/// information.
pub open spec fn refusal_described(m: ProviderMutation, d: DiagSpec) -> bool {
    &&& !m.ok
    &&& m.transaction is None
    &&& m.preview is None
    &&& m.diagnostics@.len() == 1
    &&& describes(m.diagnostics@[0], d)
    &&& m.provider_code is None
    &&& m.provider_message is None
}

/// The event a state waits for.
pub open spec fn expects(st: FlowState, e: ProviderEvent) -> bool {
    match st {
        FlowState::AwaitRename => e is Renamed,
        FlowState::Validating { .. } => e is Validated,
        FlowState::AwaitCheck { .. } => e is Checked,
        FlowState::Finished => false,
    }
}

/// What the flow asks once `j` edited sources are accepted by the provider:
/// its judgement of the edits of source number `j`, or, when none is left,
/// its check of the edited project.
pub open spec fn requests_from(
    docs: Seq<LppDocument>,
    root: Option<Seq<char>>,
    t: EditTransaction,
    ps: Seq<SourcePreview>,
    j: int,
    st: FlowState,
    a: ProviderAction,
) -> bool {
    if j < ps.len() {
        match group_request(docs, t.edits@, ps[j].source@) {
            Err(d) => st is Finished && (a matches ProviderAction::Finish(m) && refusal_described(
                m,
                d,
            )),
            Ok(req) => {
                &&& st matches FlowState::Validating { transaction, previews, group }
                    && transaction == t && previews@ == ps && group == j
                &&& a matches ProviderAction::ValidateEdits { document, edits } && document
                    == req.0 && text_edits_match(edits@, req.1)
            },
        }
    } else {
        &&& st matches FlowState::AwaitCheck { transaction, previews } && transaction == t
            && previews@ == ps
        &&& a matches ProviderAction::Check { documents, project_root } && documents.wf()
            && edited_docs(docs, ps, documents.docs()) && opt_view(project_root) == root
    }
}

/// How the flow goes on from a settled transaction `t`: its version
/// preconditions and its application, then the provider's gates.
pub open spec fn continues_from(
    docs: Seq<LppDocument>,
    texts: Map<Seq<char>, Seq<char>>,
    root: Option<Seq<char>>,
    t: EditTransaction,
    st: FlowState,
    a: ProviderAction,
) -> bool {
    let failures = precondition_failures(texts, t.edits@);
    if failures.len() > 0 {
        st is Finished && (a matches ProviderAction::Finish(m) && refusal_described(m, failures[0]))
    } else if !all_sources_apply(texts, t.edits@) {
        st is Finished && (a matches ProviderAction::Finish(m) && {
            &&& !m.ok
            &&& m.transaction is None
            &&& m.preview is None
            &&& m.provider_code is None
            &&& m.provider_message is None
            &&& m.diagnostics@.len() == 1
            &&& exists|s: Seq<char>|
                first_failing_source(texts, t.edits@, s) && invalid_range(
                    m.diagnostics@[0],
                    #[trigger] source_result(texts, t.edits@, s)->Err_0,
                )
        })
    } else {
        exists|ps: Seq<SourcePreview>|
            previews_of(texts, t.edits@, ps) && #[trigger] requests_from(docs, root, t, ps, 0, st, a)
    }
}

fn copy_document(d: &LppDocument) -> (r: LppDocument)
    ensures
        r == *d,
{
    LppDocument {
        uri: d.uri.clone(),
        language_id: d.language_id.clone(),
        version: d.version,
        text: d.text.clone(),
    }
}

/// A refusal with nothing attached; the flow's arms for events its state
/// does not expect give it.
fn empty_refusal() -> (r: ProviderMutation)
    ensures
        !r.ok,
{
    ProviderMutation {
        ok: false,
        transaction: None,
        diagnostics: Vec::new(),
        preview: None,
        provider_code: None,
        provider_message: None,
    }
}

fn copy_opt(o: &Option<String>) -> (r: Option<String>)
    ensures
        opt_view(r) == opt_view(*o),
{
    match o {
        Some(s) => Some(s.clone()),
        None => None,
    }
}

fn request_from(
    docs: &DocumentSet,
    root: &Option<String>,
    t: EditTransaction,
    ps: Vec<SourcePreview>,
    j: usize,
) -> (r: (FlowState, ProviderAction))
    requires
        docs.wf(),
        texts_bounded(docs.docs()),
        versions_bounded(docs.docs()),
        crate::edit::strictly_sorted(crate::edit::preview_sources(ps@)),
        j <= ps@.len(),
    ensures
        requests_from(docs.docs(), opt_view(*root), t, ps@, j as int, r.0, r.1),
        r.0 matches FlowState::Validating { previews, group, .. } ==> lookup_doc(
            docs.docs(),
            previews@[group as int].source@,
        ) is Some,
{
    if j < ps.len() {
        let ghost s = ps@[j as int].source@;
        let found = docs.get(ps[j].source.as_str());
        match found {
            None => {
                let mut m = owned("the transaction targets '");
                m.append(ps[j].source.as_str());
                m.append("' but the request document set has no current text for it");
                let d = Diagnostic::error("edit-unknown-source", Stage::Discovery, m.as_str());
                (FlowState::Finished, ProviderAction::Finish(refusal(d)))
            },
            Some(doc) => {
                proof {
                    let c = choose|c: int|
                        0 <= c < docs.docs().len() && #[trigger] docs.docs()[c].uri@ == s;
                    assert(texts_bounded(docs.docs()));
                    assert(docs.docs()[c].text@.len() < 0x7fff_ffff);
                }
                match group_text_edits(doc, t.edits.as_slice(), ps[j].source.as_str()) {
                    Err(d) => (FlowState::Finished, ProviderAction::Finish(refusal(d))),
                    Ok(edits) => {
                        let document = copy_document(doc);
                        (
                            FlowState::Validating { transaction: t, previews: ps, group: j },
                            ProviderAction::ValidateEdits { document, edits },
                        )
                    },
                }
            },
        }
    } else {
        let documents = edited_documents(docs, &ps);
        let project_root = copy_opt(root);
        (FlowState::AwaitCheck { transaction: t, previews: ps }, ProviderAction::Check { documents, project_root })
    }
}

fn continue_from(
    docs: &DocumentSet,
    sources: &SourceTexts,
    root: &Option<String>,
    t: EditTransaction,
) -> (r: (FlowState, ProviderAction))
    requires
        docs.wf(),
        texts_bounded(docs.docs()),
        versions_bounded(docs.docs()),
        sources.wf(),
    ensures
        continues_from(docs.docs(), sources@, opt_view(*root), t, r.0, r.1),
        r.0 matches FlowState::Validating { transaction, previews, group } ==> {
            &&& previews_of(sources@, transaction.edits@, previews@)
            &&& group < previews@.len()
            &&& lookup_doc(docs.docs(), previews@[group as int].source@) is Some
        },
        r.0 matches FlowState::AwaitCheck { transaction, previews } ==> previews_of(
            sources@,
            transaction.edits@,
            previews@,
        ),
{
    match check_and_apply(sources, &t) {
        Err(d) => (FlowState::Finished, ProviderAction::Finish(refusal(d))),
        Ok(ps) => {
            let ghost gps = ps@;
            let r = request_from(docs, root, t, ps, 0);
            assert(requests_from(docs.docs(), opt_view(*root), t, gps, 0, r.0, r.1));
            r
        },
    }
}

impl ProviderEditFlow {
    pub closed spec fn docs(&self) -> Seq<LppDocument> {
        self.documents.docs()
    }

    pub closed spec fn texts(&self) -> Map<Seq<char>, Seq<char>> {
        self.sources@
    }

    pub closed spec fn root(&self) -> Option<Seq<char>> {
        opt_view(self.project_root)
    }

    pub closed spec fn state(&self) -> FlowState {
        self.state
    }

    pub closed spec fn wf(&self) -> bool {
        &&& self.documents.wf()
        &&& texts_bounded(self.documents.docs())
        &&& versions_bounded(self.documents.docs())
        &&& self.sources.wf()
        &&& match self.state {
            FlowState::Validating { transaction, previews, group } => {
                &&& previews_of(self.sources@, transaction.edits@, previews@)
                &&& group < previews@.len()
                &&& lookup_doc(self.documents.docs(), previews@[group as int].source@) is Some
            },
            FlowState::AwaitCheck { transaction, previews } => previews_of(
                self.sources@,
                transaction.edits@,
                previews@,
            ),
            _ => true,
        }
    }

    /// How the flow moves on from `self` when the caller reports `e`.
    pub open spec fn step_spec(self, e: ProviderEvent, next: Self, a: ProviderAction) -> bool {
        let docs = self.docs();
        let texts = self.texts();
        let root = self.root();
        &&& next.docs() == docs
        &&& next.texts() == texts
        &&& next.root() == root
        &&& match self.state() {
            FlowState::AwaitRename => match e {
                ProviderEvent::Renamed(Err(f)) => next.state() is Finished && (a matches ProviderAction::Finish(m)
                    && failure_refusal(m, f)),
                ProviderEvent::Renamed(Ok(res)) => match rename_outcome(docs, res.edits@) {
                    Err(d) => next.state() is Finished && (a matches ProviderAction::Finish(m)
                        && refusal_described(m, d)),
                    Ok(ss) => exists|es: Seq<SourceEdit>, n: Result<EditTransaction, Diagnostic>|
                        #![trigger realizes_all(es, ss), new_outcome(es, n)]
                        {
                            &&& realizes_all(es, ss)
                            &&& new_outcome(es, n)
                            &&& match n {
                                Err(d) => next.state() is Finished && (a matches ProviderAction::Finish(m)
                                    && refuses_with(m, d)),
                                Ok(t) => continues_from(docs, texts, root, t, next.state(), a),
                            }
                        },
                },
                _ => false,
            },
            FlowState::Validating { transaction, previews, group } => match e {
                ProviderEvent::Validated(Err(f)) => next.state() is Finished && (a matches ProviderAction::Finish(m)
                    && failure_refusal(m, f)),
                ProviderEvent::Validated(Ok(res)) => {
                    let s = previews@[group as int].source@;
                    match verdict_refusal(s, lookup_doc(docs, s)->Some_0, res) {
                        Some(d) => next.state() is Finished && (a matches ProviderAction::Finish(m)
                            && refusal_described(m, d)),
                        None => requests_from(
                            docs,
                            root,
                            transaction,
                            previews@,
                            group + 1,
                            next.state(),
                            a,
                        ),
                    }
                },
                _ => false,
            },
            FlowState::AwaitCheck { transaction, previews } => match e {
                ProviderEvent::Checked(Err(f)) => next.state() is Finished && (a matches ProviderAction::Finish(m)
                    && failure_refusal(m, f)),
                ProviderEvent::Checked(Ok(c)) => match first_semantic_error(c.documents@) {
                    Some(x) => next.state() is Finished && (a matches ProviderAction::Finish(m)
                        && refusal_described(m, semantic_error_spec(x.0, x.1))),
                    None => next.state() is Finished && (a matches ProviderAction::Finish(m) && {
                        &&& m.ok
                        &&& m.transaction == Some(transaction)
                        &&& m.preview matches Some(p) && p@ == previews@
                        &&& m.diagnostics@.len() == 0
                        &&& m.provider_code is None
                        &&& m.provider_message is None
                    }),
                },
                _ => false,
            },
            FlowState::Finished => false,
        }
    }

    /// Starts a provider rename: the provider is asked first.
    pub fn semantic_rename(request: ProviderRenameRequest) -> (r: (ProviderEditFlow, ProviderAction))
        requires
            request.documents.wf(),
            texts_bounded(request.documents.docs()),
            versions_bounded(request.documents.docs()),
            request.sources.wf(),
        ensures
            r.0.wf(),
            r.0.docs() == request.documents.docs(),
            r.0.texts() == request.sources@,
            r.0.root() == opt_view(request.project_root),
            r.0.state() is AwaitRename,
            r.1 matches ProviderAction::Rename {
                documents,
                position_document_uri,
                position,
                new_name,
                project_root,
            } && {
                &&& documents.wf()
                &&& documents.docs() == request.documents.docs()
                &&& position_document_uri@ == request.position_document_uri@
                &&& position == request.position
                &&& new_name@ == request.new_name@
                &&& opt_view(project_root) == opt_view(request.project_root)
            },
    {
        let action = ProviderAction::Rename {
            documents: request.documents.copy(),
            position_document_uri: request.position_document_uri,
            position: request.position,
            new_name: request.new_name,
            project_root: copy_opt(&request.project_root),
        };
        let flow = ProviderEditFlow {
            documents: request.documents,
            sources: request.sources,
            project_root: request.project_root,
            state: FlowState::AwaitRename,
        };
        (flow, action)
    }

    /// Starts running a caller's transaction through the provider's gates:
    /// its version preconditions and application are checked first.
    pub fn validate_transaction(request: ProviderValidateRequest) -> (r: (
        ProviderEditFlow,
        ProviderAction,
    ))
        requires
            request.documents.wf(),
            texts_bounded(request.documents.docs()),
            versions_bounded(request.documents.docs()),
            request.sources.wf(),
        ensures
            r.0.wf(),
            r.0.docs() == request.documents.docs(),
            r.0.texts() == request.sources@,
            r.0.root() == opt_view(request.project_root),
            continues_from(
                request.documents.docs(),
                request.sources@,
                opt_view(request.project_root),
                request.transaction,
                r.0.state(),
                r.1,
            ),
    {
        let (state, action) = continue_from(
            &request.documents,
            &request.sources,
            &request.project_root,
            request.transaction,
        );
        let flow = ProviderEditFlow {
            documents: request.documents,
            sources: request.sources,
            project_root: request.project_root,
            state,
        };
        (flow, action)
    }

    /// The flow's next move once the caller reports `e`.
    pub fn step(self, e: ProviderEvent) -> (r: (ProviderEditFlow, ProviderAction))
        requires
            self.wf(),
            expects(self.state(), e),
        ensures
            r.0.wf(),
            self.step_spec(e, r.0, r.1),
    {
        let ProviderEditFlow { documents, sources, project_root, state } = self;
        let (state, action) = match state {
            FlowState::AwaitRename => match e {
                ProviderEvent::Renamed(Err(f)) => (
                    FlowState::Finished,
                    ProviderAction::Finish(provider_failure(&f)),
                ),
                ProviderEvent::Renamed(Ok(res)) => match rename_edits(&documents, &res) {
                    Err(d) => (FlowState::Finished, ProviderAction::Finish(refusal(d))),
                    Ok(es) => {
                        let ghost ges = es@;
                        let n = EditTransaction::new(es);
                        let ghost gn = n;
                        assert(new_outcome(ges, gn));
                        match n {
                            Err(d) => (FlowState::Finished, ProviderAction::Finish(refusal(d))),
                            Ok(t) => continue_from(&documents, &sources, &project_root, t),
                        }
                    },
                },
                _ => (FlowState::Finished, ProviderAction::Finish(empty_refusal())),
            },
            FlowState::Validating { transaction, previews, group } => match e {
                ProviderEvent::Validated(Err(f)) => (
                    FlowState::Finished,
                    ProviderAction::Finish(provider_failure(&f)),
                ),
                ProviderEvent::Validated(Ok(res)) => {
                    let count = previews.len();
                    assert(group < count);
                    let found = documents.get(previews[group].source.as_str());
                    match found {
                        Some(doc) => match verdict(previews[group].source.as_str(), doc, &res) {
                            Some(d) => (FlowState::Finished, ProviderAction::Finish(refusal(d))),
                            None => request_from(
                                &documents,
                                &project_root,
                                transaction,
                                previews,
                                group + 1,
                            ),
                        },
                        None => (FlowState::Finished, ProviderAction::Finish(empty_refusal())),
                    }
                },
                _ => (FlowState::Finished, ProviderAction::Finish(empty_refusal())),
            },
            FlowState::AwaitCheck { transaction, previews } => match e {
                ProviderEvent::Checked(Err(f)) => (
                    FlowState::Finished,
                    ProviderAction::Finish(provider_failure(&f)),
                ),
                ProviderEvent::Checked(Ok(c)) => match semantic_error(&c) {
                    Some(d) => (FlowState::Finished, ProviderAction::Finish(refusal(d))),
                    None => (
                        FlowState::Finished,
                        ProviderAction::Finish(
                            ProviderMutation {
                                ok: true,
                                transaction: Some(transaction),
                                diagnostics: Vec::new(),
                                preview: Some(previews),
                                provider_code: None,
                                provider_message: None,
                            },
                        ),
                    ),
                },
                _ => (FlowState::Finished, ProviderAction::Finish(empty_refusal())),
            },
            FlowState::Finished => (FlowState::Finished, ProviderAction::Finish(empty_refusal())),
        };
        let next = ProviderEditFlow { documents, sources, project_root, state };
        (next, action)
    }
}

/// A settled transaction never finishes with a mutation right away: it is
/// either refused without a transaction or preview, or sent through the
/// provider's gates.
pub proof fn law_settling_never_accepts(
    docs: Seq<LppDocument>,
    texts: Map<Seq<char>, Seq<char>>,
    root: Option<Seq<char>>,
    t: EditTransaction,
    st: FlowState,
    a: ProviderAction,
)
    requires
        continues_from(docs, texts, root, t, st, a),
    ensures
        a matches ProviderAction::Finish(m) ==> !m.ok && m.transaction is None && m.preview is None,
{
    if !(precondition_failures(texts, t.edits@).len() > 0) && all_sources_apply(texts, t.edits@) {
        let ps = choose|ps: Seq<SourcePreview>|
            previews_of(texts, t.edits@, ps) && #[trigger] requests_from(docs, root, t, ps, 0, st, a);
        assert(requests_from(docs, root, t, ps, 0, st, a));
    }
}

/// Every refusal is atomic: a step that finishes without accepting carries
/// neither a transaction nor a preview; and a step accepts only when the
/// provider's project check of the edited project came back without an
/// error, after every earlier gate passed.
pub proof fn law_refusals_are_atomic(
    flow: ProviderEditFlow,
    e: ProviderEvent,
    next: ProviderEditFlow,
    a: ProviderAction,
)
    requires
        flow.step_spec(e, next, a),
    ensures
        a matches ProviderAction::Finish(m) ==> (m.ok || (m.transaction is None && m.preview is None)),
        a matches ProviderAction::Finish(m) && m.ok ==> flow.state() is AwaitCheck && (e matches ProviderEvent::Checked(Ok(c))
            && first_semantic_error(c.documents@) is None),
{
    match flow.state() {
        FlowState::AwaitRename => {
            if let ProviderEvent::Renamed(Ok(res)) = e {
                if let Ok(ss) = rename_outcome(flow.docs(), res.edits@) {
                    let (es, n) = choose|es: Seq<SourceEdit>, n: Result<EditTransaction, Diagnostic>|
                        #![trigger realizes_all(es, ss), new_outcome(es, n)]
                        {
                            &&& realizes_all(es, ss)
                            &&& new_outcome(es, n)
                            &&& match n {
                                Err(d) => next.state() is Finished && (a matches ProviderAction::Finish(m)
                                    && refuses_with(m, d)),
                                Ok(t) => continues_from(flow.docs(), flow.texts(), flow.root(), t, next.state(), a),
                            }
                        };
                    if let Ok(t) = n {
                        law_settling_never_accepts(flow.docs(), flow.texts(), flow.root(), t, next.state(), a);
                    }
                }
            }
        },
        _ => {},
    }
}

} // verus!
