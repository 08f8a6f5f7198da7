//! Tools and agents propose edits as validated, source-oriented
//! [`SourceEdit`]s, never as mutations of Wright's internal IR.
//!
//! A transaction is normalized once ([`EditTransaction::new`]): its edits are
//! ordered by source and position, and overlapping or order-dependent edits in
//! one source are refused. Applying a transaction replaces each edit's
//! half-open range with its new text, source by source.

use vstd::prelude::*;

use vstd::relations::{sorted_by, total_ordering};
use vstd::string::StringExecFns;

use crate::config::{InputSpec, SessionConfig, SourceKind, source_kind_name};
use crate::diag::{Diagnostic, Position, Severity, SourceSpan, Stage, plain_diagnostic};
use crate::result::{exit_code_from, exit_code_of};
use crate::text::{
    ascii_lower, chars_of, decimal, decimal_string, is_alphanumeric, is_alphanumeric_char,
    is_white_space, is_whitespace, join_lines, join_lines_exec, lemma_seq_le_antisym,
    lemma_seq_le_total, lemma_seq_le_trans, lemma_split_join, lemma_split_lines_unbroken,
    lemma_std_lines_bounds, no_line_break, seq_le, split_lines,
    split_lines_exec, std_lines, std_lines_exec, str_eq, str_le, string_from_chars, trim_start,
    trim_start_chars, views,
};

verus! {

broadcast use vstd::string::group_string_axioms, vstd::seq_lib::group_to_multiset_ensures;

// ---------------------------------------------------------------------------
// The current texts of the sources an edit may touch.
// ---------------------------------------------------------------------------

/// The current text of each source, keyed by source name.
#[derive(Debug, Clone)]
pub struct SourceTexts {
    entries: Vec<(String, String)>,
}

/// The map that a list of entries with distinct keys denotes.
pub open spec fn entries_map(es: Seq<(String, String)>) -> Map<Seq<char>, Seq<char>>
    decreases es.len(),
{
    if es.len() == 0 {
        Map::empty()
    } else {
        entries_map(es.drop_last()).insert(es.last().0@, es.last().1@)
    }
}

/// No key occurs twice.
pub open spec fn distinct_keys(es: Seq<(String, String)>) -> bool {
    forall|i: int, j: int| 0 <= i < j < es.len() ==> es[i].0@ != es[j].0@
}

/// The map of distinct entries holds exactly their keys, each with its text.
proof fn lemma_entries_map(es: Seq<(String, String)>)
    requires
        distinct_keys(es),
    ensures
        forall|k: Seq<char>|
            #[trigger] entries_map(es).contains_key(k) <==> exists|i: int|
                0 <= i < es.len() && es[i].0@ == k,
        forall|i: int| 0 <= i < es.len() ==> #[trigger] entries_map(es)[es[i].0@] == es[i].1@,
    decreases es.len(),
{
    if es.len() > 0 {
        let init = es.drop_last();
        assert(distinct_keys(init));
        lemma_entries_map(init);
        assert forall|k: Seq<char>|
            #[trigger] entries_map(es).contains_key(k) <==> exists|i: int|
                0 <= i < es.len() && es[i].0@ == k by {
            assert(entries_map(es) == entries_map(init).insert(es.last().0@, es.last().1@));
            if entries_map(es).contains_key(k) && k != es.last().0@ {
                assert(entries_map(init).contains_key(k));
                let i = choose|i: int| 0 <= i < init.len() && init[i].0@ == k;
                assert(es[i].0@ == k);
            }
            if exists|i: int| 0 <= i < es.len() && es[i].0@ == k {
                let i = choose|i: int| 0 <= i < es.len() && es[i].0@ == k;
                if i < es.len() - 1 {
                    assert(init[i].0@ == k);
                    assert(entries_map(init).contains_key(k));
                }
            }
        }
        assert forall|i: int| 0 <= i < es.len() implies #[trigger] entries_map(es)[es[i].0@]
            == es[i].1@ by {
            assert(entries_map(es) == entries_map(init).insert(es.last().0@, es.last().1@));
            if i < es.len() - 1 {
                assert(init[i] == es[i]);
                assert(es[i].0@ != es.last().0@);
                assert(entries_map(init)[init[i].0@] == init[i].1@);
            }
        }
    }
}

impl View for SourceTexts {
    type V = Map<Seq<char>, Seq<char>>;

    closed spec fn view(&self) -> Map<Seq<char>, Seq<char>> {
        entries_map(self.entries@)
    }
}

/// Replacing the text of a present key updates the denoted map.
proof fn lemma_entries_map_update(es: Seq<(String, String)>, i: int, e: (String, String))
    requires
        distinct_keys(es),
        0 <= i < es.len(),
        es[i].0@ == e.0@,
    ensures
        distinct_keys(es.update(i, e)),
        entries_map(es.update(i, e)) =~= entries_map(es).insert(e.0@, e.1@),
{
    let t = es.update(i, e);
    assert forall|a: int, b: int| 0 <= a < b < t.len() implies t[a].0@ != t[b].0@ by {
        assert(es[a].0@ != es[b].0@);
    }
    lemma_entries_map(es);
    lemma_entries_map(t);
    let m = entries_map(es).insert(e.0@, e.1@);
    assert forall|k: Seq<char>| #[trigger] entries_map(t).contains_key(k) == m.contains_key(k) by {
        if entries_map(es).contains_key(k) {
            let j = choose|j: int| 0 <= j < es.len() && es[j].0@ == k;
            assert(t[j].0@ == k);
        }
        if entries_map(t).contains_key(k) {
            let j = choose|j: int| 0 <= j < t.len() && t[j].0@ == k;
            if j != i {
                assert(es[j].0@ == k);
            }
        }
        assert(t[i].0@ == e.0@);
    }
    assert forall|k: Seq<char>| #[trigger] entries_map(t).contains_key(k) implies entries_map(t)[k]
        == m[k] by {
        let j = choose|j: int| 0 <= j < t.len() && t[j].0@ == k;
        if j != i {
            assert(t[j] == es[j]);
        }
    }
}

impl SourceTexts {
    /// The texts are well formed: no source occurs twice.
    pub closed spec fn wf(&self) -> bool {
        distinct_keys(self.entries@)
    }

    /// No sources.
    pub fn new() -> (s: SourceTexts)
        ensures
            s.wf(),
            s@ == Map::<Seq<char>, Seq<char>>::empty(),
    {
        SourceTexts { entries: Vec::new() }
    }

    fn position(&self, source: &str) -> (r: Option<usize>)
        ensures
            match r {
                Some(i) => i < self.entries@.len() && self.entries@[i as int].0@ == source@,
                None => forall|j: int|
                    0 <= j < self.entries@.len() ==> self.entries@[j].0@ != source@,
            },
    {
        let mut i: usize = 0;
        while i < self.entries.len()
            invariant
                i <= self.entries@.len(),
                forall|j: int| 0 <= j < i ==> self.entries@[j].0@ != source@,
            decreases self.entries@.len() - i,
        {
            if crate::text::str_eq(self.entries[i].0.as_str(), source) {
                return Some(i);
            }
            i = i + 1;
        }
        None
    }

    /// Sets the current text of a source, replacing any earlier text.
    pub fn insert(&mut self, source: String, text: String)
        requires
            old(self).wf(),
        ensures
            final(self).wf(),
            final(self)@ == old(self)@.insert(source@, text@),
    {
        let ghost before = self.entries@;
        match self.position(source.as_str()) {
            Some(i) => {
                proof {
                    lemma_entries_map_update(before, i as int, (source, text));
                }
                self.entries.set(i, (source, text));
            },
            None => {
                self.entries.push((source, text));
                proof {
                    assert(self.entries@.drop_last() =~= before);
                }
            },
        }
    }

    /// The current text of a source, if one was supplied.
    pub fn get(&self, source: &str) -> (r: Option<&String>)
        requires
            self.wf(),
        ensures
            match r {
                Some(t) => self@.contains_key(source@) && self@[source@] == t@,
                None => !self@.contains_key(source@),
            },
    {
        proof {
            lemma_entries_map(self.entries@);
        }
        match self.position(source) {
            Some(i) => Some(&self.entries[i].1),
            None => None,
        }
    }
}

// ---------------------------------------------------------------------------
// Edits and their order.
// ---------------------------------------------------------------------------

/// A source range: 1-based line and character column, half-open (`end` is
/// exclusive).
#[derive(Debug, Clone, Copy, PartialEq, Eq, Structural)]
pub struct EditRange {
    pub start_line: u32,
    pub start_col: u32,
    pub end_line: u32,
    pub end_col: u32,
}

/// One proposed source edit.
#[derive(Debug, Clone)]
pub struct SourceEdit {
    pub edit_kind: String,
    pub source: String,
    pub source_identity: String,
    pub range: EditRange,
    pub new_text: String,
}

/// What orders edits: the source, then the start position, then the end
/// position.
pub type EditKey = (Seq<char>, u32, u32, u32, u32);

pub open spec fn edit_key(e: SourceEdit) -> EditKey {
    (e.source@, e.range.start_line, e.range.start_col, e.range.end_line, e.range.end_col)
}

pub open spec fn edit_keys(es: Seq<SourceEdit>) -> Seq<EditKey> {
    es.map_values(|e: SourceEdit| edit_key(e))
}

/// `(l1, c1) < (l2, c2)` in line-then-column order.
pub open spec fn pos_lt(l1: u32, c1: u32, l2: u32, c2: u32) -> bool {
    l1 < l2 || (l1 == l2 && c1 < c2)
}

/// `(l1, c1) <= (l2, c2)` in line-then-column order.
pub open spec fn pos_le(l1: u32, c1: u32, l2: u32, c2: u32) -> bool {
    l1 < l2 || (l1 == l2 && c1 <= c2)
}

/// The order of edit keys: by source, then start, then end.
pub open spec fn key_le(a: EditKey, b: EditKey) -> bool {
    if a.0 != b.0 {
        seq_le(a.0, b.0)
    } else if a.1 != b.1 || a.2 != b.2 {
        pos_lt(a.1, a.2, b.1, b.2)
    } else {
        pos_le(a.3, a.4, b.3, b.4)
    }
}

pub open spec fn key_order() -> spec_fn(EditKey, EditKey) -> bool {
    |a: EditKey, b: EditKey| key_le(a, b)
}

/// The keys of a transaction's edits in the order a transaction holds them.
pub open spec fn sorted_keys(es: Seq<SourceEdit>) -> Seq<EditKey> {
    edit_keys(es).sort_by(key_order())
}

/// The edit key order is a total order.
pub proof fn lemma_key_order_total()
    ensures
        total_ordering(key_order()),
{
    let f = key_order();
    assert forall|a: EditKey| #[trigger] f(a, a) by {}
    assert forall|a: EditKey, b: EditKey| #[trigger] f(a, b) && #[trigger] f(b, a) implies a
        == b by {
        if a.0 != b.0 {
            lemma_seq_le_antisym(a.0, b.0);
        }
    }
    assert forall|a: EditKey, b: EditKey, c: EditKey| #[trigger]
        f(a, b) && #[trigger] f(b, c) implies f(a, c) by {
        if a.0 != b.0 && b.0 != c.0 {
            lemma_seq_le_trans(a.0, b.0, c.0);
            if a.0 == c.0 {
                lemma_seq_le_antisym(a.0, b.0);
            }
        }
    }
    assert forall|a: EditKey, b: EditKey| #[trigger] f(a, b) || #[trigger] f(b, a) by {
        if a.0 != b.0 {
            lemma_seq_le_total(a.0, b.0);
        }
    }
}

fn edit_le(a: &SourceEdit, b: &SourceEdit) -> (r: bool)
    ensures
        r == key_le(edit_key(*a), edit_key(*b)),
{
    if a.source != b.source {
        let ca = chars_of(a.source.as_str());
        let cb = chars_of(b.source.as_str());
        return str_le(ca.as_slice(), cb.as_slice());
    }
    let ra = a.range;
    let rb = b.range;
    if ra.start_line != rb.start_line || ra.start_col != rb.start_col {
        ra.start_line < rb.start_line || (ra.start_line == rb.start_line && ra.start_col
            < rb.start_col)
    } else {
        ra.end_line < rb.end_line || (ra.end_line == rb.end_line && ra.end_col <= rb.end_col)
    }
}

/// Inserting `x` after every key at or below it keeps a sorted sequence sorted.
proof fn lemma_insert_sorted(s: Seq<EditKey>, j: int, x: EditKey)
    requires
        sorted_by(s, key_order()),
        0 <= j <= s.len(),
        forall|k: int| 0 <= k < j ==> key_le(s[k], x),
        j < s.len() ==> !key_le(s[j], x),
    ensures
        sorted_by(s.insert(j, x), key_order()),
{
    lemma_key_order_total();
    let t = s.insert(j, x);
    let f = key_order();
    assert forall|a: int, b: int| 0 <= a < b < t.len() implies #[trigger] f(t[a], t[b]) by {
        if b == j {
            assert(t[a] == s[a]);
        } else if a == j {
            assert(t[b] == s[b - 1]);
            assert(f(s[j], x) || f(x, s[j]));
            if b - 1 > j {
                assert(f(s[j], s[b - 1]));
            }
        } else if a < j {
            assert(t[a] == s[a]);
            if b < j {
                assert(t[b] == s[b]);
            } else {
                assert(t[b] == s[b - 1]);
            }
        } else {
            assert(t[a] == s[a - 1]);
            assert(t[b] == s[b - 1]);
        }
    }
}

/// Edits sorted (stably) by source, then start, then end position.
fn sort_edits(edits: Vec<SourceEdit>) -> (sorted: Vec<SourceEdit>)
    ensures
        sorted@.to_multiset() == edits@.to_multiset(),
        edit_keys(sorted@) == sorted_keys(edits@),
{
    let mut rest = edits;
    let mut sorted: Vec<SourceEdit> = Vec::new();
    proof {
        lemma_key_order_total();
        assert(edit_keys(sorted@) =~= Seq::<EditKey>::empty());
    }
    while rest.len() > 0
        invariant
            sorted_by(edit_keys(sorted@), key_order()),
            sorted@.to_multiset().add(rest@.to_multiset()) == edits@.to_multiset(),
            edit_keys(sorted@).to_multiset().add(edit_keys(rest@).to_multiset())
                == edit_keys(edits@).to_multiset(),
        decreases rest@.len(),
    {
        let ghost before_rest = rest@;
        let e = rest.pop().unwrap();
        proof {
            assert(before_rest =~= rest@.push(e));
            assert(edit_keys(before_rest) =~= edit_keys(rest@).push(edit_key(e)));
        }
        let mut j: usize = 0;
        while j < sorted.len() && edit_le(&sorted[j], &e)
            invariant
                j <= sorted@.len(),
                forall|k: int| 0 <= k < j ==> key_le(edit_key(sorted@[k]), edit_key(e)),
            decreases sorted@.len() - j,
        {
            j = j + 1;
        }
        let ghost before_sorted = sorted@;
        proof {
            lemma_insert_sorted(edit_keys(before_sorted), j as int, edit_key(e));
        }
        sorted.insert(j, e);
        proof {
            assert(edit_keys(sorted@) =~= edit_keys(before_sorted).insert(j as int, edit_key(e)));
        }
    }
    proof {
        assert(rest@ =~= Seq::<SourceEdit>::empty());
        assert(edit_keys(rest@) =~= Seq::<EditKey>::empty());
        assert(edit_keys(sorted@).to_multiset() =~= edit_keys(edits@).to_multiset());
        assert(sorted@.to_multiset() =~= edits@.to_multiset());
        edit_keys(edits@).lemma_sort_by_ensures(key_order());
        vstd::seq_lib::lemma_sorted_unique(edit_keys(sorted@), sorted_keys(edits@), key_order());
    }
    sorted
}

// ---------------------------------------------------------------------------
// Transactions.
// ---------------------------------------------------------------------------

/// Why two neighbouring edits of one source cannot stand in one transaction.
#[derive(Debug, Clone, Copy, PartialEq, Eq, Structural)]
pub enum EditConflict {
    /// The later edit starts before the earlier one ends.
    Overlap,
    /// Both start at one position and one of them inserts there: their order
    /// would be arbitrary.
    ZeroWidth,
}

/// The conflict between two neighbouring keys in transaction order, if any.
pub open spec fn pair_conflict(a: EditKey, b: EditKey) -> Option<EditConflict> {
    if a.0 != b.0 {
        None
    } else if pos_lt(b.1, b.2, a.3, a.4) {
        Some(EditConflict::Overlap)
    } else if a.1 == b.1 && a.2 == b.2 && ((a.1 == a.3 && a.2 == a.4) || (b.1 == b.3 && b.2
        == b.4)) {
        Some(EditConflict::ZeroWidth)
    } else {
        None
    }
}

/// No neighbouring pair before index `n` conflicts.
pub open spec fn no_conflict_before(ks: Seq<EditKey>, n: int) -> bool {
    forall|i: int| 0 <= i < n && i + 1 < ks.len() ==> #[trigger] pair_conflict(ks[i], ks[i + 1]) is None
}

pub open spec fn dec(n: u32) -> Seq<char> {
    decimal(n as nat)
}

/// The diagnostic code of a conflict.
pub open spec fn conflict_code(c: EditConflict) -> Seq<char> {
    match c {
        EditConflict::Overlap => "edit-overlap"@,
        EditConflict::ZeroWidth => "edit-zero-width-conflict"@,
    }
}

/// The message that reports a conflict between neighbouring keys `a` and `b`.
pub open spec fn conflict_message(a: EditKey, b: EditKey, c: EditConflict) -> Seq<char> {
    match c {
        EditConflict::Overlap => "the transaction carries overlapping edits in '"@ + a.0
            + "' at "@ + dec(a.1) + ":"@ + dec(a.2) + "-"@ + dec(a.3) + " and "@ + dec(a.4)
            + ":"@ + dec(b.1) + "-"@ + dec(b.2),
        EditConflict::ZeroWidth => "the transaction carries order-dependent zero-width edits in '"@
            + a.0 + "' at "@ + dec(a.1) + ":"@ + dec(a.2)
            + "; refusing rather than defining an arbitrary insertion order"@,
    }
}

/// The message of an empty transaction.
pub open spec fn empty_transaction_message() -> Seq<char> {
    "a source-edit transaction must carry at least one edit"@
}

fn push_number(m: &mut String, n: u32)
    ensures
        final(m)@ == old(m)@ + dec(n),
{
    let d = decimal_string(n as u64);
    m.append(d.as_str());
}

fn conflict_message_exec(a: &SourceEdit, b: &SourceEdit, c: EditConflict) -> (m: String)
    ensures
        m@ == conflict_message(edit_key(*a), edit_key(*b), c),
{
    let mut m = String::new();
    match c {
        EditConflict::Overlap => {
            m.append("the transaction carries overlapping edits in '");
            m.append(a.source.as_str());
            m.append("' at ");
            push_number(&mut m, a.range.start_line);
            m.append(":");
            push_number(&mut m, a.range.start_col);
            m.append("-");
            push_number(&mut m, a.range.end_line);
            m.append(" and ");
            push_number(&mut m, a.range.end_col);
            m.append(":");
            push_number(&mut m, b.range.start_line);
            m.append("-");
            push_number(&mut m, b.range.start_col);
        },
        EditConflict::ZeroWidth => {
            m.append("the transaction carries order-dependent zero-width edits in '");
            m.append(a.source.as_str());
            m.append("' at ");
            push_number(&mut m, a.range.start_line);
            m.append(":");
            push_number(&mut m, a.range.start_col);
            m.append("; refusing rather than defining an arbitrary insertion order");
        },
    }
    m
}

/// One validated source transaction: several file edits applied and
/// validated atomically.
#[derive(Debug, Clone)]
pub struct EditTransaction {
    pub edits: Vec<SourceEdit>,
}

impl EditTransaction {
    /// Normalizes a list of edits into a transaction: the edits are ordered by
    /// source, start and end; an empty list, overlapping edits, or two edits
    /// that start at one position where one of them inserts, are refused with
    /// the first conflict in that order.
    pub fn new(edits: Vec<SourceEdit>) -> (r: Result<EditTransaction, Diagnostic>)
        ensures
            edits@.len() == 0 ==> (r matches Err(d) && plain_diagnostic(
                d,
                "edit-empty-transaction"@,
                Stage::Discovery,
                Severity::Error,
                empty_transaction_message(),
            )),
            edits@.len() > 0 ==> (r is Ok <==> no_conflict_before(
                sorted_keys(edits@),
                sorted_keys(edits@).len() as int,
            )),
            r matches Ok(t) ==> {
                &&& t.edits@.to_multiset() == edits@.to_multiset()
                &&& edit_keys(t.edits@) == sorted_keys(edits@)
            },
            edits@.len() > 0 ==> (r matches Err(d) ==> exists|i: int|
                #![trigger sorted_keys(edits@)[i]]
                {
                    &&& 0 <= i && i + 1 < sorted_keys(edits@).len()
                    &&& no_conflict_before(sorted_keys(edits@), i)
                    &&& pair_conflict(sorted_keys(edits@)[i], sorted_keys(edits@)[i + 1]) matches Some(c)
                        && plain_diagnostic(
                        d,
                        conflict_code(c),
                        Stage::Discovery,
                        Severity::Error,
                        conflict_message(sorted_keys(edits@)[i], sorted_keys(edits@)[i + 1], c),
                    )
                }),
    {
        if edits.len() == 0 {
            return Err(
                Diagnostic::error(
                    "edit-empty-transaction",
                    Stage::Discovery,
                    "a source-edit transaction must carry at least one edit",
                ),
            );
        }
        let ghost given = edits@;
        let sorted = sort_edits(edits);
        let ghost ks = sorted_keys(given);
        proof {
            lemma_key_order_total();
            edit_keys(given).lemma_sort_by_ensures(key_order());
            assert(sorted@.to_multiset().len() == given.to_multiset().len());
            assert(sorted@.len() == given.len());
        }
        let mut i: usize = 0;
        let n = sorted.len();
        while i + 1 < n
            invariant
                n == sorted@.len(),
                given.len() > 0,
                given == edits@,
                ks == sorted_keys(given),
                edit_keys(sorted@) == ks,
                ks.len() == sorted@.len(),
                i < sorted@.len(),
                no_conflict_before(ks, i as int),
            decreases sorted@.len() - i,
        {
            let a = &sorted[i];
            let b = &sorted[i + 1];
            assert(ks[i as int] == edit_key(sorted@[i as int]));
            assert(ks[i + 1] == edit_key(sorted@[i + 1]));
            if a.source == b.source {
                if b.range.start_line < a.range.end_line || (b.range.start_line == a.range.end_line
                    && b.range.start_col < a.range.end_col) {
                    let m = conflict_message_exec(a, b, EditConflict::Overlap);
                    let d = Diagnostic::error("edit-overlap", Stage::Discovery, m.as_str());
                    assert(pair_conflict(ks[i as int], ks[i + 1]) == Some(EditConflict::Overlap));
                    return Err(d);
                }
                let a_zero = a.range.start_line == a.range.end_line && a.range.start_col
                    == a.range.end_col;
                let b_zero = b.range.start_line == b.range.end_line && b.range.start_col
                    == b.range.end_col;
                if a.range.start_line == b.range.start_line && a.range.start_col
                    == b.range.start_col && (a_zero || b_zero) {
                    let m = conflict_message_exec(a, b, EditConflict::ZeroWidth);
                    let d = Diagnostic::error(
                        "edit-zero-width-conflict",
                        Stage::Discovery,
                        m.as_str(),
                    );
                    assert(pair_conflict(ks[i as int], ks[i + 1]) == Some(
                        EditConflict::ZeroWidth,
                    ));
                    return Err(d);
                }
            }
            assert(pair_conflict(ks[i as int], ks[i + 1]) is None);
            i = i + 1;
        }
        assert(no_conflict_before(ks, ks.len() as int));
        Ok(EditTransaction { edits: sorted })
    }
}

// ---------------------------------------------------------------------------
// Applying edits.
// ---------------------------------------------------------------------------

/// The range names lines that exist, in order.
pub open spec fn range_within_lines(n: int, r: EditRange) -> bool {
    &&& r.start_line >= 1
    &&& r.end_line >= 1
    &&& r.end_line <= n
    &&& r.end_line >= r.start_line
    &&& !(r.start_line == r.end_line && r.end_col < r.start_col)
}

/// The range's columns are 1-based and at most one past the end of their
/// lines.
pub open spec fn columns_within(lines: Seq<Seq<char>>, r: EditRange) -> bool {
    &&& r.start_col >= 1
    &&& r.start_col <= lines[r.start_line - 1].len() + 1
    &&& r.end_col >= 1
    &&& r.end_col <= lines[r.end_line - 1].len() + 1
}

/// The lines with the half-open range replaced by `new_text`.
pub open spec fn replace_range(lines: Seq<Seq<char>>, r: EditRange, new_text: Seq<char>) -> Seq<
    char,
> {
    let first = lines[r.start_line - 1];
    let last = lines[r.end_line - 1];
    join_lines(
        lines.take(r.start_line - 1) + seq![
            first.take(r.start_col - 1) + new_text + last.skip(r.end_col - 1),
        ] + lines.skip(r.end_line as int),
    )
}

pub open spec fn range_text(r: EditRange) -> Seq<char> {
    "edit range "@ + dec(r.start_line) + "-"@ + dec(r.start_col) + ":"@ + dec(r.end_line) + "-"@
        + dec(r.end_col)
}

/// The message of a range that names lines outside the source.
pub open spec fn outside_message(r: EditRange, n: nat) -> Seq<char> {
    range_text(r) + " is outside the source ("@ + decimal(n) + " lines)"@
}

/// The message of a range whose columns fall outside their lines.
pub open spec fn columns_message(r: EditRange, start_count: nat, end_count: nat) -> Seq<char> {
    range_text(r) + " has columns outside the source lines (line "@ + dec(r.start_line) + " has "@
        + decimal(start_count) + " characters, line "@ + dec(r.end_line) + " has "@ + decimal(
        end_count,
    ) + "); columns are 1-based and may not be 0 or beyond the line end"@
}

/// The outcome of one edit on a text: the edited text, or the message of
/// the invalid range.
pub open spec fn edit_outcome(text: Seq<char>, e: SourceEdit) -> Result<Seq<char>, Seq<char>> {
    let lines = split_lines(text);
    let r = e.range;
    if !range_within_lines(lines.len() as int, r) {
        Err(outside_message(r, lines.len()))
    } else if !columns_within(lines, r) {
        Err(
            columns_message(r, lines[r.start_line - 1].len(), lines[r.end_line - 1].len()),
        )
    } else {
        Ok(replace_range(lines, r, e.new_text@))
    }
}

/// An edit leaves every line outside its range as it was. When the new
/// text holds no line break, the edited text's lines are the lines before
/// `start_line`, then the one line that joins the start of `start_line` (up
/// to `start_col`), the new text and the rest of `end_line` (from
/// `end_col`), then every line after `end_line`: the line count falls by
/// exactly `end_line - start_line`.
pub proof fn law_edit_keeps_lines_outside_range(text: Seq<char>, e: SourceEdit)
    requires
        edit_outcome(text, e) is Ok,
        no_line_break(e.new_text@),
    ensures
        ({
            let lines = split_lines(text);
            let out = split_lines(edit_outcome(text, e)->Ok_0);
            let sl = e.range.start_line as int;
            let el = e.range.end_line as int;
            &&& out.len() == lines.len() - (el - sl)
            &&& forall|i: int| 0 <= i < sl - 1 ==> #[trigger] out[i] == lines[i]
            &&& out[sl - 1] == lines[sl - 1].take(e.range.start_col - 1) + e.new_text@ + lines[el
                - 1].skip(e.range.end_col - 1)
            &&& forall|i: int| el <= i < lines.len() ==> out[i - (el - sl)] == #[trigger] lines[i]
        }),
{
    let lines = split_lines(text);
    let r = e.range;
    let sl = r.start_line as int;
    let el = r.end_line as int;
    let first = lines[sl - 1];
    let last = lines[el - 1];
    let mid = first.take(r.start_col - 1) + e.new_text@ + last.skip(r.end_col - 1);
    let m = lines.take(sl - 1) + seq![mid] + lines.skip(el);
    lemma_split_lines_unbroken(text);
    assert(no_line_break(mid)) by {
        assert(no_line_break(first));
        assert(no_line_break(last));
        assert forall|j: int| 0 <= j < mid.len() implies #[trigger] mid[j] != '\n' by {
            let a = first.take(r.start_col - 1).len();
            let b = e.new_text@.len();
            if j < a {
                assert(mid[j] == first[j]);
            } else if j < a + b {
                assert(mid[j] == e.new_text@[j - a]);
            } else {
                assert(mid[j] == last[j - a - b + r.end_col - 1]);
            }
        }
    }
    assert forall|i: int| 0 <= i < m.len() implies no_line_break(#[trigger] m[i]) by {
        if i < sl - 1 {
            assert(m[i] == lines[i]);
        } else if i > sl - 1 {
            assert(m[i] == lines[i - sl + el]);
        }
    }
    lemma_split_join(m);
    assert(edit_outcome(text, e)->Ok_0 == join_lines(m));
}

/// The invalid-range diagnostic carrying `message`.
pub open spec fn invalid_range(d: Diagnostic, message: Seq<char>) -> bool {
    plain_diagnostic(d, "edit-invalid-range"@, Stage::Discovery, Severity::Error, message)
}

fn range_text_exec(r: EditRange) -> (m: String)
    ensures
        m@ == range_text(r),
{
    let mut m = String::new();
    m.append("edit range ");
    push_number(&mut m, r.start_line);
    m.append("-");
    push_number(&mut m, r.start_col);
    m.append(":");
    push_number(&mut m, r.end_line);
    m.append("-");
    push_number(&mut m, r.end_col);
    m
}

fn push_count(m: &mut String, n: usize)
    ensures
        final(m)@ == old(m)@ + decimal(n as nat),
{
    let d = decimal_string(n as u64);
    m.append(d.as_str());
}

/// Appends `src[from..to]` to `out`.
pub(crate) fn push_slice(out: &mut Vec<char>, src: &[char], from: usize, to: usize)
    requires
        from <= to <= src@.len(),
    ensures
        final(out)@ == old(out)@ + src@.subrange(from as int, to as int),
{
    let mut k = from;
    while k < to
        invariant
            from <= k <= to,
            to <= src@.len(),
            out@ == old(out)@ + src@.subrange(from as int, k as int),
        decreases to - k,
    {
        assert(src@.subrange(from as int, k + 1) =~= src@.subrange(from as int, k as int).push(
            src@[k as int],
        ));
        out.push(src[k]);
        k = k + 1;
    }
}

/// Applies one edit to a text.
fn apply_edit(text: &[char], edit: &SourceEdit) -> (r: Result<Vec<char>, Diagnostic>)
    ensures
        match edit_outcome(text@, *edit) {
            Ok(t) => r matches Ok(v) && v@ == t,
            Err(m) => r matches Err(d) && invalid_range(d, m),
        },
{
    let lines = split_lines_exec(text);
    let n = lines.len();
    let r = edit.range;
    let (sl, sc, el, ec) = (r.start_line, r.start_col, r.end_line, r.end_col);
    if sl < 1 || el < 1 || el as usize > n || el < sl || (sl == el && ec < sc) {
        let mut m = range_text_exec(r);
        m.append(" is outside the source (");
        push_count(&mut m, n);
        m.append(" lines)");
        return Err(Diagnostic::error("edit-invalid-range", Stage::Discovery, m.as_str()));
    }
    let first = &lines[(sl - 1) as usize];
    let last = &lines[(el - 1) as usize];
    let start_count = first.len();
    let end_count = last.len();
    if sc < 1 || (sc - 1) as usize > start_count || ec < 1 || (ec - 1) as usize > end_count {
        let mut m = range_text_exec(r);
        m.append(" has columns outside the source lines (line ");
        push_number(&mut m, sl);
        m.append(" has ");
        push_count(&mut m, start_count);
        m.append(" characters, line ");
        push_number(&mut m, el);
        m.append(" has ");
        push_count(&mut m, end_count);
        m.append("); columns are 1-based and may not be 0 or beyond the line end");
        return Err(Diagnostic::error("edit-invalid-range", Stage::Discovery, m.as_str()));
    }
    let ghost ls = views(lines@);
    let mut out_lines: Vec<Vec<char>> = Vec::new();
    let mut k: usize = 0;
    while k + 1 < sl as usize
        invariant
            k + 1 <= sl,
            sl as int - 1 <= n,
            n == lines@.len(),
            ls == views(lines@),
            views(out_lines@) == ls.take(k as int),
        decreases sl - k,
    {
        let mut copy: Vec<char> = Vec::new();
        push_slice(&mut copy, lines[k].as_slice(), 0, lines[k].len());
        assert(copy@ =~= lines@[k as int]@);
        let ghost prev = out_lines@;
        out_lines.push(copy);
        assert(views(out_lines@) =~= views(prev).push(ls[k as int]));
        assert(views(out_lines@) =~= ls.take(k + 1));
        k = k + 1;
    }
    let mut mid: Vec<char> = Vec::new();
    push_slice(&mut mid, first.as_slice(), 0, (sc - 1) as usize);
    let new_chars = chars_of(edit.new_text.as_str());
    push_slice(&mut mid, new_chars.as_slice(), 0, new_chars.len());
    push_slice(&mut mid, last.as_slice(), (ec - 1) as usize, end_count);
    proof {
        assert(first@.subrange(0, sc - 1) =~= ls[sl - 1].take(sc - 1));
        assert(new_chars@.subrange(0, new_chars@.len() as int) =~= edit.new_text@);
        assert(last@.subrange(ec - 1, end_count as int) =~= ls[el - 1].skip(ec - 1));
    }
    out_lines.push(mid);
    let mut k: usize = el as usize;
    while k < n
        invariant
            el <= k <= n,
            n == lines@.len(),
            ls == views(lines@),
            views(out_lines@) == ls.take(sl - 1) + seq![
                ls[sl - 1].take(sc - 1) + edit.new_text@ + ls[el - 1].skip(ec - 1),
            ] + ls.subrange(el as int, k as int),
        decreases n - k,
    {
        let mut copy: Vec<char> = Vec::new();
        push_slice(&mut copy, lines[k].as_slice(), 0, lines[k].len());
        assert(copy@ =~= lines@[k as int]@);
        let ghost prev = out_lines@;
        out_lines.push(copy);
        assert(views(out_lines@) =~= views(prev).push(ls[k as int]));
        assert(views(out_lines@) =~= ls.take(sl - 1) + seq![
            ls[sl - 1].take(sc - 1) + edit.new_text@ + ls[el - 1].skip(ec - 1),
        ] + ls.subrange(el as int, k + 1));
        k = k + 1;
    }
    assert(ls.subrange(el as int, n as int) =~= ls.skip(el as int));
    let out = join_lines_exec(&out_lines);
    Ok(out)
}

/// A transaction's edits of source `src`, applied to its text from the last
/// edit to the first.
pub open spec fn source_outcome(text: Seq<char>, es: Seq<SourceEdit>, src: Seq<char>) -> Result<
    Seq<char>,
    Seq<char>,
>
    decreases es.len(),
{
    if es.len() == 0 {
        Ok(text)
    } else if es.last().source@ != src {
        source_outcome(text, es.drop_last(), src)
    } else {
        match edit_outcome(text, es.last()) {
            Ok(t) => source_outcome(t, es.drop_last(), src),
            Err(m) => Err(m),
        }
    }
}

fn apply_to_source(text: &[char], edits: &[SourceEdit], src: &str) -> (r: Result<
    Vec<char>,
    Diagnostic,
>)
    ensures
        match source_outcome(text@, edits@, src@) {
            Ok(t) => r matches Ok(v) && v@ == t,
            Err(m) => r matches Err(d) && invalid_range(d, m),
        },
{
    let mut cur: Vec<char> = Vec::new();
    push_slice(&mut cur, text, 0, text.len());
    assert(cur@ =~= text@);
    let mut i = edits.len();
    assert(edits@.take(i as int) =~= edits@);
    while i > 0
        invariant
            i <= edits@.len(),
            source_outcome(text@, edits@, src@) == source_outcome(
                cur@,
                edits@.take(i as int),
                src@,
            ),
        decreases i,
    {
        i = i - 1;
        proof {
            assert(edits@.take(i + 1).drop_last() =~= edits@.take(i as int));
            assert(edits@.take(i + 1).last() == edits@[i as int]);
        }
        if crate::text::str_eq(edits[i].source.as_str(), src) {
            match apply_edit(cur.as_slice(), &edits[i]) {
                Ok(v) => {
                    cur = v;
                },
                Err(d) => {
                    return Err(d);
                },
            }
        }
    }
    assert(edits@.take(0) =~= Seq::<SourceEdit>::empty());
    Ok(cur)
}

/// The character views of a sequence of strings.
pub open spec fn strs(v: Seq<String>) -> Seq<Seq<char>> {
    v.map_values(|x: String| x@)
}

/// Strictly increasing by code-point order.
pub open spec fn strictly_sorted(v: Seq<Seq<char>>) -> bool {
    forall|i: int, j: int| #![trigger v[i], v[j]] 0 <= i < j < v.len() ==> seq_le(v[i], v[j]) && v[i] != v[j]
}

/// Distinct positions of a strictly sorted list hold distinct entries.
pub proof fn lemma_strictly_sorted_distinct(v: Seq<Seq<char>>, a: int, b: int)
    requires
        strictly_sorted(v),
        0 <= a < v.len(),
        0 <= b < v.len(),
        a != b,
    ensures
        v[a] != v[b],
{
    if a < b {
        assert(v[a] != v[b]);
    } else {
        assert(v[b] != v[a]);
    }
}

/// Some edit of the transaction targets `s`.
pub open spec fn is_edit_source(es: Seq<SourceEdit>, s: Seq<char>) -> bool {
    exists|i: int| 0 <= i < es.len() && es[i].source@ == s
}

/// Where `x` stands in a strictly sorted list: the index of an equal entry
/// (`true`), or the index to insert it at (`false`).
fn sorted_slot(v: &Vec<String>, x: &String) -> (r: (usize, bool))
    requires
        strictly_sorted(strs(v@)),
    ensures
        r.0 <= v@.len(),
        r.1 ==> r.0 < v@.len() && v@[r.0 as int]@ == x@,
        !r.1 ==> forall|k: int| 0 <= k < r.0 ==> seq_le(v@[k]@, x@) && v@[k]@ != x@,
        !r.1 && r.0 < v@.len() ==> seq_le(x@, v@[r.0 as int]@) && v@[r.0 as int]@ != x@,
{
    let cx = chars_of(x.as_str());
    let mut j: usize = 0;
    while j < v.len()
        invariant
            j <= v@.len(),
            cx@ == x@,
            forall|k: int| 0 <= k < j ==> seq_le(v@[k]@, x@) && v@[k]@ != x@,
        decreases v@.len() - j,
    {
        if v[j] == *x {
            return (j, true);
        }
        let cv = chars_of(v[j].as_str());
        if str_le(cx.as_slice(), cv.as_slice()) {
            return (j, false);
        }
        proof {
            lemma_seq_le_total(v@[j as int]@, x@);
        }
        j = j + 1;
    }
    (j, false)
}

/// Inserting `x` where `sorted_slot` places it keeps a list strictly sorted.
#[verifier::spinoff_prover]
pub proof fn lemma_insert_strictly_sorted(before: Seq<Seq<char>>, j: int, x: Seq<char>)
    requires
        strictly_sorted(before),
        0 <= j <= before.len(),
        forall|k: int| 0 <= k < j ==> seq_le(before[k], x) && before[k] != x,
        j < before.len() ==> seq_le(x, before[j]) && before[j] != x,
    ensures
        strictly_sorted(before.insert(j, x)),
{
    let t = before.insert(j, x);
    before.insert_ensures(j, x);
    assert forall|k: int| 0 <= k < t.len() implies #[trigger] t[k] == (if k < j {
        before[k]
    } else if k == j {
        x
    } else {
        before[k - 1]
    }) by {
        if k > j {
            assert(t[(k - 1) + 1] == before[k - 1]);
        }
    }
    assert forall|a: int, b: int| 0 <= a < b < t.len() implies seq_le(t[a], t[b]) && t[a] != t[b] by {
        if b < j {
            assert(t[a] == before[a]);
            assert(t[b] == before[b]);
        } else if a < j && b == j {
            assert(t[a] == before[a]);
            assert(t[b] == x);
        } else if a < j && b > j {
            assert(t[a] == before[a]);
            assert(t[b] == before[b - 1]);
        } else if a == j {
            assert(t[a] == x);
            assert(t[b] == before[b - 1]);
            if b - 1 > j {
                assert(seq_le(before[j], before[b - 1]));
                lemma_seq_le_trans(x, before[j], before[b - 1]);
                if x == before[b - 1] {
                    lemma_seq_le_antisym(x, before[j]);
                }
            }
        } else {
            assert(t[a] == before[a - 1]);
            assert(t[b] == before[b - 1]);
        }
    }
}

/// The distinct sources of a list of edits, in code-point order.
fn transaction_sources(edits: &[SourceEdit]) -> (v: Vec<String>)
    ensures
        strictly_sorted(strs(v@)),
        forall|s: Seq<char>| #[trigger] strs(v@).contains(s) <==> is_edit_source(edits@, s),
{
    let mut v: Vec<String> = Vec::new();
    let mut i: usize = 0;
    while i < edits.len()
        invariant
            i <= edits@.len(),
            strictly_sorted(strs(v@)),
            forall|s: Seq<char>| #[trigger]
                strs(v@).contains(s) <==> is_edit_source(edits@.take(i as int), s),
        decreases edits@.len() - i,
    {
        let x = &edits[i].source;
        let (j, found) = sorted_slot(&v, x);
        let ghost before = strs(v@);
        proof {
            assert(edits@.take(i + 1) =~= edits@.take(i as int).push(edits@[i as int]));
            assert forall|s: Seq<char>| is_edit_source(edits@.take(i + 1), s) <==> (
            is_edit_source(edits@.take(i as int), s) || s == x@) by {
                if is_edit_source(edits@.take(i + 1), s) {
                    let k = choose|k: int|
                        #![trigger edits@.take(i + 1)[k]]
                        0 <= k < edits@.take(i + 1).len() && edits@.take(i + 1)[k].source@ == s;
                    if k < i {
                        assert(edits@.take(i as int)[k].source@ == s);
                    }
                }
                if is_edit_source(edits@.take(i as int), s) {
                    let k = choose|k: int|
                        #![trigger edits@.take(i as int)[k]]
                        0 <= k < edits@.take(i as int).len() && edits@.take(i as int)[k].source@
                            == s;
                    assert(edits@.take(i + 1)[k].source@ == s);
                }
                if s == x@ {
                    assert(edits@.take(i + 1)[i as int].source@ == s);
                }
            }
        }
        if !found {
            proof {
                if j < v@.len() {
                    assert(seq_le(x@, v@[j as int]@));
                }
            }
            v.insert(j, x.clone());
            proof {
                assert(strs(v@) =~= before.insert(j as int, x@));
                lemma_insert_strictly_sorted(before, j as int, x@);
                assert forall|s: Seq<char>| #[trigger] strs(v@).contains(s) <==> is_edit_source(
                    edits@.take(i + 1),
                    s,
                ) by {
                    if strs(v@).contains(s) {
                        let k = choose|k: int| 0 <= k < strs(v@).len() && strs(v@)[k] == s;
                        if k < j {
                            assert(before[k] == s);
                        } else if k > j {
                            assert(before[k - 1] == s);
                        }
                    }
                    if before.contains(s) {
                        let k = choose|k: int| 0 <= k < before.len() && before[k] == s;
                        if k < j {
                            assert(strs(v@)[k] == s);
                        } else {
                            assert(strs(v@)[k + 1] == s);
                        }
                    }
                    if s == x@ {
                        assert(strs(v@)[j as int] == s);
                    }
                }
            }
        } else {
            proof {
                assert forall|s: Seq<char>| #[trigger] strs(v@).contains(s) <==> is_edit_source(
                    edits@.take(i + 1),
                    s,
                ) by {
                    if s == x@ {
                        assert(strs(v@)[j as int] == s);
                    }
                }
            }
        }
        i = i + 1;
    }
    assert(edits@.take(i as int) =~= edits@);
    v
}

/// The edited text of one source in a validated transaction.
#[derive(Debug, Clone)]
pub struct SourcePreview {
    pub source: String,
    pub new_text: String,
    pub source_identity: String,
}

/// The sources of a list of previews.
pub open spec fn preview_sources(ps: Seq<SourcePreview>) -> Seq<Seq<char>> {
    ps.map_values(|p: SourcePreview| p.source@)
}

/// The outcome of a transaction on source `s` of `texts`.
pub open spec fn source_result(texts: Map<Seq<char>, Seq<char>>, es: Seq<SourceEdit>, s: Seq<
    char,
>) -> Result<Seq<char>, Seq<char>> {
    source_outcome(texts[s], es, s)
}

/// Every source a transaction touches can be edited.
pub open spec fn all_sources_apply(texts: Map<Seq<char>, Seq<char>>, es: Seq<SourceEdit>) -> bool {
    forall|s: Seq<char>| is_edit_source(es, s) ==> #[trigger] source_result(texts, es, s) is Ok
}

/// `s` is the first source, in code-point order, whose edits fail.
pub open spec fn first_failing_source(
    texts: Map<Seq<char>, Seq<char>>,
    es: Seq<SourceEdit>,
    s: Seq<char>,
) -> bool {
    &&& is_edit_source(es, s)
    &&& source_result(texts, es, s) is Err
    &&& forall|t: Seq<char>|
        is_edit_source(es, t) && seq_le(t, s) && t != s ==> #[trigger] source_result(
            texts,
            es,
            t,
        ) is Ok
}

/// The previews of a transaction: one per touched source, in code-point
/// order, each with the edited text and that text's identity.
pub open spec fn previews_of(
    texts: Map<Seq<char>, Seq<char>>,
    es: Seq<SourceEdit>,
    ps: Seq<SourcePreview>,
) -> bool {
    &&& strictly_sorted(preview_sources(ps))
    &&& forall|s: Seq<char>| is_edit_source(es, s) <==> #[trigger] preview_sources(ps).contains(s)
    &&& forall|j: int|
        0 <= j < ps.len() ==> {
            &&& #[trigger] source_result(texts, es, ps[j].source@) == Ok::<Seq<char>, Seq<char>>(
                ps[j].new_text@,
            )
            &&& ps[j].source_identity@ == crate::identity_of(ps[j].new_text@)
        }
}

/// Every edit of the transaction targets a source whose text is supplied.
pub open spec fn texts_cover(texts: Map<Seq<char>, Seq<char>>, es: Seq<SourceEdit>) -> bool {
    forall|i: int| 0 <= i < es.len() ==> texts.contains_key(#[trigger] es[i].source@)
}

fn apply_transaction(sources: &SourceTexts, transaction: &EditTransaction) -> (r: Result<
    Vec<SourcePreview>,
    Diagnostic,
>)
    requires
        sources.wf(),
        texts_cover(sources@, transaction.edits@),
    ensures
        r is Ok <==> all_sources_apply(sources@, transaction.edits@),
        r matches Ok(ps) ==> previews_of(sources@, transaction.edits@, ps@),
        r matches Err(d) ==> exists|s: Seq<char>|
            first_failing_source(sources@, transaction.edits@, s) && invalid_range(
                d,
                #[trigger] source_result(sources@, transaction.edits@, s)->Err_0,
            ),
{
    let es = transaction.edits.as_slice();
    let srcs = transaction_sources(es);
    let ghost ss = strs(srcs@);
    let mut previews: Vec<SourcePreview> = Vec::new();
    let mut j: usize = 0;
    while j < srcs.len()
        invariant
            j <= srcs@.len(),
            ss == strs(srcs@),
            es@ == transaction.edits@,
            sources.wf(),
            texts_cover(sources@, es@),
            strictly_sorted(ss),
            forall|s: Seq<char>| #[trigger] ss.contains(s) <==> is_edit_source(es@, s),
            previews@.len() == j,
            forall|k: int|
                0 <= k < j ==> {
                    &&& #[trigger] previews@[k].source@ == ss[k]
                    &&& source_result(sources@, es@, ss[k]) == Ok::<Seq<char>, Seq<char>>(
                        previews@[k].new_text@,
                    )
                    &&& previews@[k].source_identity@ == crate::identity_of(
                        previews@[k].new_text@,
                    )
                },
        decreases srcs@.len() - j,
    {
        let src = &srcs[j];
        proof {
            assert(ss.contains(ss[j as int]));
            let i = choose|i: int| 0 <= i < es@.len() && es@[i].source@ == ss[j as int];
            assert(sources@.contains_key(es@[i].source@));
        }
        let text = match sources.get(src.as_str()) {
            Some(t) => t,
            None => {
                return Err(Diagnostic::error("edit-unknown-source", Stage::Discovery, ""));
            },
        };
        let chars = chars_of(text.as_str());
        match apply_to_source(chars.as_slice(), es, src.as_str()) {
            Ok(v) => {
                let new_text = string_from_chars(v.as_slice());
                let identity = crate::input_identity(new_text.as_str());
                previews.push(
                    SourcePreview { source: src.clone(), new_text, source_identity: identity },
                );
            },
            Err(d) => {
                proof {
                    let s = ss[j as int];
                    assert(is_edit_source(es@, s));
                    assert forall|t: Seq<char>|
                        is_edit_source(es@, t) && seq_le(t, s) && t != s implies #[trigger] source_result(
                            sources@,
                            es@,
                            t,
                        ) is Ok by {
                        assert(ss.contains(t));
                        let k = choose|k: int| 0 <= k < ss.len() && ss[k] == t;
                        if k >= j {
                            if k > j {
                                assert(seq_le(s, t));
                            }
                            lemma_seq_le_antisym(s, t);
                        }
                        assert(previews@[k].source@ == ss[k]);
                    }
                    assert(first_failing_source(sources@, es@, s));
                }
                return Err(d);
            },
        }
        j = j + 1;
    }
    proof {
        let ps = previews@;
        assert(preview_sources(ps) =~= ss);
        assert forall|s: Seq<char>| is_edit_source(es@, s) implies #[trigger] source_result(
            sources@,
            es@,
            s,
        ) is Ok by {
            assert(ss.contains(s));
            let k = choose|k: int| 0 <= k < ss.len() && ss[k] == s;
            assert(previews@[k].source@ == ss[k]);
        }
    }
    Ok(previews)
}

impl EditTransaction {
    /// Applies the transaction to the current texts: for each touched source,
    /// in code-point order, its edits from the last to the first. The first
    /// invalid range, in that order, refuses the whole transaction.
    pub fn apply(&self, sources: &SourceTexts) -> (r: Result<Vec<SourcePreview>, Diagnostic>)
        requires
            sources.wf(),
            texts_cover(sources@, self.edits@),
        ensures
            r is Ok <==> all_sources_apply(sources@, self.edits@),
            r matches Ok(ps) ==> previews_of(sources@, self.edits@, ps@),
            r matches Err(d) ==> exists|s: Seq<char>|
                first_failing_source(sources@, self.edits@, s) && invalid_range(
                    d,
                    #[trigger] source_result(sources@, self.edits@, s)->Err_0,
                ),
    {
        apply_transaction(sources, self)
    }
}

// ---------------------------------------------------------------------------
// Textual renames.
// ---------------------------------------------------------------------------

/// A character that continues an identifier.
pub open spec fn is_word_char(c: char) -> bool {
    is_alphanumeric_char(c) || c == '_'
}

/// `n` occurs in `h` at index `i`.
pub open spec fn occurs_at(h: Seq<char>, n: Seq<char>, i: int) -> bool {
    0 <= i && i + n.len() <= h.len() && h.subrange(i, i + n.len()) == n
}

/// The first index at or after `k` where the non-empty `n` occurs in `h`.
pub open spec fn first_from(h: Seq<char>, n: Seq<char>, k: int) -> Option<int>
    decreases h.len() - k,
{
    if k < 0 || n.len() == 0 || k + n.len() > h.len() {
        None
    } else if occurs_at(h, n, k) {
        Some(k)
    } else {
        first_from(h, n, k + 1)
    }
}

pub proof fn lemma_first_from(h: Seq<char>, n: Seq<char>, k: int)
    ensures
        first_from(h, n, k) matches Some(i) ==> k <= i && occurs_at(h, n, i) && n.len() > 0,
    decreases h.len() - k,
{
    if !(k < 0 || n.len() == 0 || k + n.len() > h.len()) && !occurs_at(h, n, k) {
        lemma_first_from(h, n, k + 1);
    }
}

/// The text of `line` from `pos` on, with each occurrence of `from` that the
/// scan finds renamed to `to` when it stands as a whole identifier: the scan
/// takes the first occurrence, renames it when neither neighbour in the line
/// continues an identifier, and goes on after it.
pub open spec fn rename_from(line: Seq<char>, from: Seq<char>, to: Seq<char>, pos: int) -> Seq<
    char,
>
    decreases line.len() - pos,
{
    if from.len() == 0 || pos < 0 || pos > line.len() {
        Seq::<char>::empty()
    } else {
        match first_from(line, from, pos) {
            None => line.skip(pos),
            Some(i) => {
                proof {
                    lemma_first_from(line, from, pos);
                }
                let e = i + from.len();
                let boundary_before = i == 0 || !is_word_char(line[i - 1]);
                let boundary_after = e == line.len() || !is_word_char(line[e]);
                (if boundary_before && boundary_after {
                    line.subrange(pos, i) + to
                } else {
                    line.subrange(pos, e)
                }) + rename_from(line, from, to, e)
            },
        }
    }
}

/// A line with every whole-identifier occurrence of `from` renamed to `to`.
pub open spec fn rename_line(line: Seq<char>, from: Seq<char>, to: Seq<char>) -> Seq<char> {
    rename_from(line, from, to, 0)
}

/// Every occurrence of `from` in `line` at or after `pos` touches, just
/// before or just after it, a character that continues an identifier: one
/// that `char::is_alphanumeric` accepts (letters and digits alike), or `'_'`.
pub open spec fn only_inside_identifiers(line: Seq<char>, from: Seq<char>, pos: int) -> bool {
    forall|i: int|
        pos <= i && #[trigger] occurs_at(line, from, i) ==> (i > 0 && (is_alphanumeric_char(line[i - 1])
            || line[i - 1] == '_')) || (i + from.len() < line.len() && (is_alphanumeric_char(
            line[i + from.len()],
        ) || line[i + from.len()] == '_'))
}

proof fn lemma_rename_from_inside_identifiers(line: Seq<char>, from: Seq<char>, to: Seq<char>, pos: int)
    requires
        from.len() > 0,
        0 <= pos <= line.len(),
        only_inside_identifiers(line, from, pos),
    ensures
        rename_from(line, from, to, pos) == line.skip(pos),
    decreases line.len() - pos,
{
    lemma_first_from(line, from, pos);
    match first_from(line, from, pos) {
        None => {},
        Some(i) => {
            let e = i + from.len();
            assert(occurs_at(line, from, i));
            lemma_rename_from_inside_identifiers(line, from, to, e);
            assert(line.subrange(pos, e) + line.skip(e) =~= line.skip(pos));
        },
    }
}

/// A rename never touches an occurrence of `from` that is only part of a
/// longer identifier: when each occurrence in the line has a letter, a digit
/// (anything `char::is_alphanumeric` accepts) or `'_'` right before or
/// right after it, the line comes out unchanged. So `score2` survives a
/// rename of `score`, as `_score` and `myscore` do.
pub proof fn law_rename_keeps_longer_identifiers(line: Seq<char>, from: Seq<char>, to: Seq<char>)
    requires
        from.len() > 0,
        only_inside_identifiers(line, from, 0),
    ensures
        rename_line(line, from, to) == line,
{
    lemma_rename_from_inside_identifiers(line, from, to, 0);
    assert(line.skip(0) =~= line);
}

proof fn lemma_first_from_finds(h: Seq<char>, n: Seq<char>, k: int, i: int)
    requires
        n.len() > 0,
        0 <= k <= i,
        occurs_at(h, n, i),
        forall|j: int| k <= j < i ==> !#[trigger] occurs_at(h, n, j),
    ensures
        first_from(h, n, k) == Some(i),
    decreases i - k,
{
    if k < i {
        assert(!occurs_at(h, n, k));
        lemma_first_from_finds(h, n, k + 1, i);
    }
}

proof fn lemma_first_from_absent(h: Seq<char>, n: Seq<char>, k: int)
    requires
        k >= 0,
        forall|j: int| k <= j ==> !#[trigger] occurs_at(h, n, j),
    ensures
        first_from(h, n, k) is None,
    decreases h.len() - k,
{
    if !(n.len() == 0 || k + n.len() > h.len()) {
        assert(!occurs_at(h, n, k));
        lemma_first_from_absent(h, n, k + 1);
    }
}

/// An occurrence of `from` that stands as a whole identifier is renamed:
/// when the line is `before`, `from`, `after`, with `from` occurring only
/// there, and neither the last character of `before` nor the first of
/// `after` continues an identifier (neither `char::is_alphanumeric` nor
/// `'_'`), the line becomes `before`, `to`, `after`.
pub proof fn law_rename_replaces_whole_identifier(
    before: Seq<char>,
    from: Seq<char>,
    to: Seq<char>,
    after: Seq<char>,
)
    requires
        from.len() > 0,
        before.len() == 0 || !(is_alphanumeric_char(before.last()) || before.last() == '_'),
        after.len() == 0 || !(is_alphanumeric_char(after[0]) || after[0] == '_'),
        forall|i: int| #[trigger] occurs_at(before + from + after, from, i) ==> i == before.len(),
    ensures
        rename_line(before + from + after, from, to) == before + to + after,
{
    let line = before + from + after;
    let i = before.len() as int;
    let e = i + from.len();
    assert(line.subrange(i, e) =~= from);
    assert(occurs_at(line, from, i));
    lemma_first_from_finds(line, from, 0, i);
    assert forall|j: int| e <= j implies !#[trigger] occurs_at(line, from, j) by {
        if occurs_at(line, from, j) {
            assert(j == i);
        }
    }
    lemma_first_from_absent(line, from, e);
    assert(line.skip(e) =~= after);
    assert(rename_from(line, from, to, e) == after);
    if i > 0 {
        assert(line[i - 1] == before.last());
    }
    if e < line.len() {
        assert(line[e] == after[0]);
    }
    assert(line.subrange(0, i) =~= before);
    assert(rename_from(line, from, to, 0) =~= before + to + after);
}

fn matches_at(h: &[char], n: &[char], j: usize) -> (r: bool)
    requires
        j + n@.len() <= h@.len(),
    ensures
        r == occurs_at(h@, n@, j as int),
{
    let hl = h.len();
    let mut m: usize = 0;
    while m < n.len()
        invariant
            hl == h@.len(),
            m <= n@.len(),
            j + n@.len() <= h@.len(),
            h@.subrange(j as int, j + m) == n@.take(m as int),
        decreases n@.len() - m,
    {
        if h[j + m] != n[m] {
            assert(!occurs_at(h@, n@, j as int)) by {
                if occurs_at(h@, n@, j as int) {
                    assert(h@.subrange(j as int, j + n@.len())[m as int] == h@[j + m]);
                }
            }
            return false;
        }
        assert(h@.subrange(j as int, j + m + 1) =~= h@.subrange(j as int, j + m).push(h@[j + m]));
        assert(n@.take(m + 1) =~= n@.take(m as int).push(n@[m as int]));
        m = m + 1;
    }
    assert(n@.take(m as int) =~= n@);
    true
}

pub(crate) fn find_from(h: &[char], n: &[char], k: usize) -> (r: Option<usize>)
    requires
        n@.len() > 0,
        k <= h@.len(),
    ensures
        match r {
            Some(i) => first_from(h@, n@, k as int) == Some(i as int),
            None => first_from(h@, n@, k as int) is None,
        },
{
    if n.len() > h.len() || k > h.len() - n.len() {
        return None;
    }
    let hl = h.len();
    let last_start = hl - n.len();
    let mut j = k;
    while j <= last_start
        invariant
            hl == h@.len(),
            k <= j,
            last_start + n@.len() == h@.len(),
            n@.len() > 0,
            first_from(h@, n@, k as int) == first_from(h@, n@, j as int),
        decreases h@.len() - j,
    {
        if matches_at(h, n, j) {
            return Some(j);
        }
        j = j + 1;
    }
    None
}

fn is_word(c: char) -> (r: bool)
    ensures
        r == is_word_char(c),
{
    c == '_' || is_alphanumeric(c)
}

fn rename_in_line(line: &[char], from: &[char], to: &[char]) -> (r: Vec<char>)
    requires
        from@.len() > 0,
    ensures
        r@ == rename_line(line@, from@, to@),
{
    let mut out: Vec<char> = Vec::new();
    let mut pos: usize = 0;
    while pos <= line.len()
        invariant
            pos <= line@.len(),
            from@.len() > 0,
            out@ + rename_from(line@, from@, to@, pos as int) == rename_from(line@, from@, to@, 0),
        decreases line@.len() + 1 - pos,
    {
        match find_from(line, from, pos) {
            None => {
                push_slice(&mut out, line, pos, line.len());
                assert(line@.subrange(pos as int, line@.len() as int) =~= line@.skip(pos as int));
                return out;
            },
            Some(i) => {
                proof {
                    lemma_first_from(line@, from@, pos as int);
                }
                let e = i + from.len();
                let boundary_before = i == 0 || !is_word(line[i - 1]);
                let boundary_after = e == line.len() || !is_word(line[e]);
                let ghost before = out@;
                if boundary_before && boundary_after {
                    push_slice(&mut out, line, pos, i);
                    push_slice(&mut out, to, 0, to.len());
                    assert(to@.subrange(0, to@.len() as int) =~= to@);
                } else {
                    push_slice(&mut out, line, pos, e);
                }
                assert(out@ + rename_from(line@, from@, to@, e as int) =~= before
                    + rename_from(line@, from@, to@, pos as int));
                pos = e;
            },
        }
    }
    out
}

/// The source with every line renamed; line breaks are kept.
pub open spec fn renamed_text(source: Seq<char>, from: Seq<char>, to: Seq<char>) -> Seq<char> {
    join_lines(split_lines(source).map_values(|l: Seq<char>| rename_line(l, from, to)))
}

/// The range of a whole source: from its start to the end of its last line
/// (as `str::lines` counts lines, at least one).
pub open spec fn whole_range(source: Seq<char>) -> EditRange {
    let ls = std_lines(source);
    EditRange {
        start_line: 1,
        start_col: 1,
        end_line: (if ls.len() == 0 {
            1
        } else {
            ls.len()
        }) as u32,
        end_col: ((if ls.len() == 0 {
            0
        } else {
            ls.last().len()
        }) + 1) as u32,
    }
}

/// The message of an empty rename name.
pub open spec fn invalid_name_message() -> Seq<char> {
    "rename requires non-empty `from` and `to` names"@
}

/// The whole-source rename edit that `rename_occurrences` produces.
pub open spec fn is_rename_edit(
    e: SourceEdit,
    source: Seq<char>,
    from: Seq<char>,
    to: Seq<char>,
    source_file: Seq<char>,
    source_identity: Seq<char>,
) -> bool {
    &&& e.edit_kind@ == "rename"@
    &&& e.source@ == source_file
    &&& e.source_identity@ == source_identity
    &&& e.range == whole_range(source)
    &&& e.new_text@ == renamed_text(source, from, to)
}

/// Renames every whole-identifier occurrence of `from` to `to` across a
/// source, as one edit that replaces the whole source. No declaration is
/// required.
pub fn rename_occurrences(
    source: &str,
    from: &str,
    to: &str,
    source_file: &str,
    source_identity: &str,
) -> (r: Result<SourceEdit, Diagnostic>)
    requires
        source@.len() < usize::MAX,
    ensures
        from@.len() == 0 || to@.len() == 0 ==> (r matches Err(d) && plain_diagnostic(
            d,
            "edit-invalid-name"@,
            Stage::Discovery,
            Severity::Error,
            invalid_name_message(),
        )),
        from@.len() > 0 && to@.len() > 0 ==> (r matches Ok(e) && is_rename_edit(
            e,
            source@,
            from@,
            to@,
            source_file@,
            source_identity@,
        )),
{
    let from_chars = chars_of(from);
    let to_chars = chars_of(to);
    if from_chars.len() == 0 || to_chars.len() == 0 {
        return Err(
            Diagnostic::error(
                "edit-invalid-name",
                Stage::Discovery,
                "rename requires non-empty `from` and `to` names",
            ),
        );
    }
    let text = chars_of(source);
    let pieces = split_lines_exec(text.as_slice());
    let mut renamed: Vec<Vec<char>> = Vec::new();
    let mut k: usize = 0;
    while k < pieces.len()
        invariant
            k <= pieces@.len(),
            from_chars@ == from@,
            to_chars@ == to@,
            from@.len() > 0,
            views(pieces@) == split_lines(source@),
            views(renamed@) == split_lines(source@).take(k as int).map_values(
                |l: Seq<char>| rename_line(l, from@, to@),
            ),
        decreases pieces@.len() - k,
    {
        let line = rename_in_line(pieces[k].as_slice(), from_chars.as_slice(), to_chars.as_slice());
        let ghost prev = renamed@;
        renamed.push(line);
        assert(views(renamed@) =~= views(prev).push(line@));
        assert(views(renamed@) =~= split_lines(source@).take(k + 1).map_values(
            |l: Seq<char>| rename_line(l, from@, to@),
        ));
        k = k + 1;
    }
    assert(split_lines(source@).take(k as int) =~= split_lines(source@));
    let out = join_lines_exec(&renamed);
    let lines = std_lines_exec(text.as_slice());
    proof {
        lemma_std_lines_bounds(source@);
    }
    let line_count: u32 = if lines.len() == 0 {
        1
    } else {
        lines.len() as u32
    };
    let last_len: usize = if lines.len() == 0 {
        0
    } else {
        assert(lines@[lines@.len() - 1]@ == std_lines(source@)[lines@.len() - 1]);
        lines[lines.len() - 1].len()
    };
    let end_col: u32 = (last_len + 1) as u32;
    Ok(
        SourceEdit {
            edit_kind: crate::text::owned("rename"),
            source: crate::text::owned(source_file),
            source_identity: crate::text::owned(source_identity),
            range: EditRange { start_line: 1, start_col: 1, end_line: line_count, end_col },
            new_text: string_from_chars(out.as_slice()),
        },
    )
}

/// A request to rename a declared symbol within one source.
#[derive(Debug, Clone)]
pub struct RenameRequest {
    pub symbol_kind: String,
    pub from: String,
    pub to: String,
    pub source: String,
    pub source_identity: String,
}

/// The declaration keyword of a symbol kind.
pub open spec fn declaration_keyword(kind: Seq<char>) -> Option<Seq<char>> {
    if kind == "globalVariable"@ {
        Some("globalvar"@)
    } else if kind == "playerVariable"@ {
        Some("playervar"@)
    } else if kind == "subroutine"@ {
        Some("subroutine"@)
    } else {
        None
    }
}

/// The index at or after `i` where the first token of `s` ends: at white
/// space, `=`, or the end.
pub open spec fn token_end(s: Seq<char>, i: int) -> int
    decreases s.len() - i,
{
    if i >= s.len() {
        s.len() as int
    } else if is_white_space(s[i]) || s[i] == '=' {
        i
    } else {
        token_end(s, i + 1)
    }
}

/// The text up to the first white space or `=`.
pub open spec fn first_token(s: Seq<char>) -> Seq<char> {
    s.take(token_end(s, 0))
}

/// The line declares `name` as a symbol of `kind`: after leading white space
/// it starts with the kind's keyword, and the first token after it is `name`.
pub open spec fn line_declares(line: Seq<char>, kind: Seq<char>, name: Seq<char>) -> bool {
    match declaration_keyword(kind) {
        None => false,
        Some(kw) => {
            let t = trim_start(line);
            &&& kw.len() <= t.len()
            &&& t.take(kw.len() as int) == kw
            &&& first_token(trim_start(t.skip(kw.len() as int))) == name
        },
    }
}

/// Some line of the source declares `name` as a symbol of `kind`.
pub open spec fn source_declares(source: Seq<char>, kind: Seq<char>, name: Seq<char>) -> bool {
    exists|i: int| 0 <= i < std_lines(source).len() && #[trigger] line_declares(
        std_lines(source)[i],
        kind,
        name,
    )
}

/// The message of a rename of an undeclared symbol.
pub open spec fn unknown_symbol_message(kind: Seq<char>, name: Seq<char>) -> Seq<char> {
    "no "@ + kind + " named '"@ + name + "' is declared in the source"@
}

fn keyword_of(kind: &str) -> (r: Option<&'static str>)
    ensures
        match declaration_keyword(kind@) {
            Some(kw) => r matches Some(k) && k@ == kw,
            None => r is None,
        },
{
    if str_eq(kind, "globalVariable") {
        Some("globalvar")
    } else if str_eq(kind, "playerVariable") {
        Some("playervar")
    } else if str_eq(kind, "subroutine") {
        Some("subroutine")
    } else {
        None
    }
}

fn first_token_chars(s: &[char]) -> (r: Vec<char>)
    ensures
        r@ == first_token(s@),
{
    let mut r: Vec<char> = Vec::new();
    let mut i: usize = 0;
    while i < s.len() && !is_whitespace(s[i]) && s[i] != '='
        invariant
            i <= s@.len(),
            token_end(s@, 0) == token_end(s@, i as int),
            r@ == s@.take(i as int),
        decreases s@.len() - i,
    {
        assert(s@.take(i + 1) =~= s@.take(i as int).push(s@[i as int]));
        r.push(s[i]);
        i = i + 1;
    }
    r
}

fn line_has_declaration(line: &[char], kind: &str, name: &[char]) -> (r: bool)
    ensures
        r == line_declares(line@, kind@, name@),
{
    let keyword = match keyword_of(kind) {
        Some(k) => k,
        None => {
            return false;
        },
    };
    let kw = chars_of(keyword);
    assert(declaration_keyword(kind@) == Some(kw@));
    let trimmed = trim_start_chars(line);
    if kw.len() > trimmed.len() {
        return false;
    }
    let mut i: usize = 0;
    while i < kw.len()
        invariant
            i <= kw@.len(),
            kw@.len() <= trimmed@.len(),
            declaration_keyword(kind@) == Some(kw@),
            trimmed@ == trim_start(line@),
            trimmed@.take(i as int) == kw@.take(i as int),
        decreases kw@.len() - i,
    {
        if trimmed[i] != kw[i] {
            assert(trimmed@.take(kw@.len() as int)[i as int] != kw@[i as int]);
            return false;
        }
        assert(trimmed@.take(i + 1) =~= trimmed@.take(i as int).push(trimmed@[i as int]));
        assert(kw@.take(i + 1) =~= kw@.take(i as int).push(kw@[i as int]));
        i = i + 1;
    }
    assert(kw@.take(i as int) =~= kw@);
    let mut rest: Vec<char> = Vec::new();
    push_slice(&mut rest, trimmed.as_slice(), kw.len(), trimmed.len());
    assert(rest@ =~= trimmed@.skip(kw@.len() as int));
    let rest = trim_start_chars(rest.as_slice());
    let token = first_token_chars(rest.as_slice());
    crate::text::chars_eq(token.as_slice(), name)
}

fn source_has_declaration(source: &[char], kind: &str, name: &[char]) -> (r: bool)
    ensures
        r == source_declares(source@, kind@, name@),
{
    let lines = std_lines_exec(source);
    let mut i: usize = 0;
    while i < lines.len()
        invariant
            i <= lines@.len(),
            views(lines@) == std_lines(source@),
            forall|j: int| 0 <= j < i ==> !line_declares(std_lines(source@)[j], kind@, name@),
        decreases lines@.len() - i,
    {
        if line_has_declaration(lines[i].as_slice(), kind, name) {
            assert(line_declares(std_lines(source@)[i as int], kind@, name@));
            return true;
        }
        i = i + 1;
    }
    false
}

/// Renames a declared symbol across one source: the names must be non-empty
/// and some line must declare `from` as a symbol of the requested kind; the
/// edit then renames every whole-identifier occurrence.
pub fn rename_symbol(source: &str, request: &RenameRequest) -> (r: Result<SourceEdit, Diagnostic>)
    requires
        source@.len() < usize::MAX,
    ensures
        request.from@.len() == 0 || request.to@.len() == 0 ==> (r matches Err(d)
            && plain_diagnostic(
            d,
            "edit-invalid-name"@,
            Stage::Discovery,
            Severity::Error,
            invalid_name_message(),
        )),
        request.from@.len() > 0 && request.to@.len() > 0 && !source_declares(
            source@,
            request.symbol_kind@,
            request.from@,
        ) ==> (r matches Err(d) && plain_diagnostic(
            d,
            "unknown-symbol"@,
            Stage::Discovery,
            Severity::Error,
            unknown_symbol_message(request.symbol_kind@, request.from@),
        )),
        request.from@.len() > 0 && request.to@.len() > 0 && source_declares(
            source@,
            request.symbol_kind@,
            request.from@,
        ) ==> (r matches Ok(e) && is_rename_edit(
            e,
            source@,
            request.from@,
            request.to@,
            request.source@,
            request.source_identity@,
        )),
{
    let from_chars = chars_of(request.from.as_str());
    let to_chars = chars_of(request.to.as_str());
    if from_chars.len() == 0 || to_chars.len() == 0 {
        return Err(
            Diagnostic::error(
                "edit-invalid-name",
                Stage::Discovery,
                "rename requires non-empty `from` and `to` names",
            ),
        );
    }
    let text = chars_of(source);
    if !source_has_declaration(text.as_slice(), request.symbol_kind.as_str(), from_chars.as_slice()) {
        let mut m = String::new();
        m.append("no ");
        m.append(request.symbol_kind.as_str());
        m.append(" named '");
        m.append(request.from.as_str());
        m.append("' is declared in the source");
        return Err(Diagnostic::error("unknown-symbol", Stage::Discovery, m.as_str()));
    }
    rename_occurrences(
        source,
        request.from.as_str(),
        request.to.as_str(),
        request.source.as_str(),
        request.source_identity.as_str(),
    )
}

/// A range as a diagnostic span of the edit pseudo-file.
pub fn range_as_span(range: &EditRange) -> (s: SourceSpan)
    ensures
        s.file == 0,
        s.path@ == "<edit>"@,
        s.start == (Position { line: range.start_line, col: range.start_col }),
        s.end == (Position { line: range.end_line, col: range.end_col }),
{
    SourceSpan {
        file: 0,
        path: crate::text::owned("<edit>"),
        start: Position { line: range.start_line, col: range.start_col },
        end: Position { line: range.end_line, col: range.end_col },
    }
}

// ---------------------------------------------------------------------------
// Validation against the project.
// ---------------------------------------------------------------------------

/// A diagnostic described by its code, stage and message.
pub type DiagSpec = (Seq<char>, Stage, Seq<char>);

/// `d` is the error diagnostic that `ds` describes.
pub open spec fn describes(d: Diagnostic, ds: DiagSpec) -> bool {
    plain_diagnostic(d, ds.0, ds.1, Severity::Error, ds.2)
}

/// The diagnostics are, in order, those the descriptions describe.
pub open spec fn describes_all(ds: Seq<Diagnostic>, specs: Seq<DiagSpec>) -> bool {
    &&& ds.len() == specs.len()
    &&& forall|i: int| 0 <= i < ds.len() ==> #[trigger] describes(ds[i], specs[i])
}

/// The refusal of every source-provider workflow, which is not shipped.
pub open spec fn provider_unavailable() -> DiagSpec {
    (
        "source-provider-unavailable"@,
        Stage::Internal,
        "the requested source-provider workflow is not currently shipped with Wright"@,
    )
}

pub(crate) fn provider_unavailable_diagnostic() -> (d: Diagnostic)
    ensures
        describes(d, provider_unavailable()),
{
    Diagnostic::error(
        "source-provider-unavailable",
        Stage::Internal,
        "the requested source-provider workflow is not currently shipped with Wright",
    )
}

/// What the file system reports about the paths that edit validation reads.
#[derive(Debug)]
pub struct PathFacts {
    /// The canonical form of each path that exists.
    pub canonical: SourceTexts,
    /// Reading the main input: its text, or the I/O error's message.
    pub main_read: Result<String, String>,
}

/// Two paths name one file: they are equal, or both exist with one
/// canonical form.
pub open spec fn same_file(a: Seq<char>, b: Seq<char>, canonical: Map<Seq<char>, Seq<char>>) -> bool {
    a == b || (canonical.contains_key(a) && canonical.contains_key(b) && canonical[a]
        == canonical[b])
}

fn same_file_exec(a: &str, b: &str, facts: &PathFacts) -> (r: bool)
    requires
        facts.canonical.wf(),
    ensures
        r == same_file(a@, b@, facts.canonical@),
{
    if str_eq(a, b) {
        return true;
    }
    match (facts.canonical.get(a), facts.canonical.get(b)) {
        (Some(ca), Some(cb)) => *ca == *cb,
        _ => false,
    }
}

/// How edit validation decides the source kind of the main input.
pub open spec fn edit_kind_outcome(kind: SourceKind, main: Seq<char>) -> Result<SourceKind, DiagSpec> {
    match kind {
        SourceKind::Opy => Ok(SourceKind::Opy),
        SourceKind::Ostw => Err(provider_unavailable()),
        SourceKind::Auto => {
            let ext = crate::paths::path_extension(main);
            if ext matches Some(e) && ascii_lower(e) == "opy"@ {
                Ok(SourceKind::Opy)
            } else if ext matches Some(e) && (ascii_lower(e) == "ostw"@ || ascii_lower(e)
                == "del"@) {
                Err(provider_unavailable())
            } else {
                Err(
                    (
                        "edit-unsupported-kind"@,
                        Stage::Discovery,
                        "cannot detect the source kind of '"@ + main
                            + "' for edit validation; pass an explicit `opy` source kind"@,
                    ),
                )
            }
        },
        _ => Err(
            (
                "edit-unsupported-kind"@,
                Stage::Discovery,
                "edit validation is declared over the OPY source provider; '"@ + source_kind_name(
                    kind,
                ) + "' input is not an editable source kind"@,
            ),
        ),
    }
}

fn resolve_kind(kind: SourceKind, main: &str) -> (r: Result<SourceKind, Diagnostic>)
    ensures
        match edit_kind_outcome(kind, main@) {
            Ok(k) => r == Ok::<SourceKind, Diagnostic>(k),
            Err(t) => r matches Err(d) && describes(d, t),
        },
{
    match kind {
        SourceKind::Opy => Ok(SourceKind::Opy),
        SourceKind::Ostw => Err(provider_unavailable_diagnostic()),
        SourceKind::Auto => {
            let ext = crate::paths::extension(main);
            let lowered: Option<Vec<char>> = match &ext {
                Some(e) => {
                    let c = chars_of(e.as_str());
                    Some(crate::text::ascii_lower_chars(c.as_slice()))
                },
                None => None,
            };
            let (is_opy, is_other_provider) = match &lowered {
                Some(l) => {
                    let opy = chars_of("opy");
                    let ostw = chars_of("ostw");
                    let del = chars_of("del");
                    (
                        crate::text::chars_eq(l.as_slice(), opy.as_slice()),
                        crate::text::chars_eq(l.as_slice(), ostw.as_slice())
                            || crate::text::chars_eq(l.as_slice(), del.as_slice()),
                    )
                },
                None => (false, false),
            };
            if is_opy {
                Ok(SourceKind::Opy)
            } else if is_other_provider {
                Err(provider_unavailable_diagnostic())
            } else {
                let mut m = String::new();
                m.append("cannot detect the source kind of '");
                m.append(main);
                m.append("' for edit validation; pass an explicit `opy` source kind");
                Err(Diagnostic::error("edit-unsupported-kind", Stage::Discovery, m.as_str()))
            }
        },
        _ => {
            let mut m = String::new();
            m.append("edit validation is declared over the OPY source provider; '");
            m.append(kind.as_str());
            m.append("' input is not an editable source kind");
            Err(Diagnostic::error("edit-unsupported-kind", Stage::Discovery, m.as_str()))
        },
    }
}

/// The main input's text is at hand without reading the file: an edited
/// source names the same file, or a current text is supplied under its path.
pub open spec fn main_text_at_hand(
    texts: Map<Seq<char>, Seq<char>>,
    edited: Option<Seq<SourceEdit>>,
    main: Seq<char>,
    canonical: Map<Seq<char>, Seq<char>>,
) -> bool {
    ||| (edited matches Some(es) && exists|s: Seq<char>|
        is_edit_source(es, s) && #[trigger] same_file(s, main, canonical))
    ||| texts.contains_key(main)
}

/// Why the edited project cannot be set up for validation, if it cannot.
pub open spec fn context_failure(
    config: SessionConfig,
    texts: Map<Seq<char>, Seq<char>>,
    edited: Option<Seq<SourceEdit>>,
    facts: PathFacts,
) -> Option<DiagSpec> {
    match config.input {
        InputSpec::Stdin => Some(
            (
                "edit-input-stdin"@,
                Stage::Discovery,
                "edit validation requires a path-based input so the edited project's main source identity is established; stdin has no project identity"@,
            ),
        ),
        InputSpec::Path(p) => match edit_kind_outcome(config.kind, p@) {
            Err(t) => Some(t),
            Ok(_) => if main_text_at_hand(texts, edited, p@, facts.canonical@) {
                None
            } else {
                match facts.main_read {
                    Ok(_) => None,
                    Err(e) => Some(
                        (
                            "input-io"@,
                            Stage::Discovery,
                            "cannot read input '"@ + p@ + "': "@ + e@,
                        ),
                    ),
                }
            },
        },
    }
}

fn any_same_file(es: &[SourceEdit], main: &str, facts: &PathFacts) -> (r: bool)
    requires
        facts.canonical.wf(),
    ensures
        r == exists|s: Seq<char>|
            is_edit_source(es@, s) && #[trigger] same_file(s, main@, facts.canonical@),
{
    let mut i: usize = 0;
    while i < es.len()
        invariant
            i <= es@.len(),
            facts.canonical.wf(),
            forall|j: int|
                0 <= j < i ==> !same_file(#[trigger] es@[j].source@, main@, facts.canonical@),
        decreases es@.len() - i,
    {
        if same_file_exec(es[i].source.as_str(), main, facts) {
            assert(is_edit_source(es@, es@[i as int].source@));
            return true;
        }
        i = i + 1;
    }
    assert forall|s: Seq<char>| is_edit_source(es@, s) implies !#[trigger] same_file(
        s,
        main@,
        facts.canonical@,
    ) by {
        let j = choose|j: int| 0 <= j < es@.len() && es@[j].source@ == s;
        assert(!same_file(es@[j].source@, main@, facts.canonical@));
    }
    false
}

fn project_context(
    config: &SessionConfig,
    sources: &SourceTexts,
    edited: Option<&[SourceEdit]>,
    facts: &PathFacts,
) -> (r: Result<SourceKind, Diagnostic>)
    requires
        sources.wf(),
        facts.canonical.wf(),
    ensures
        match context_failure(
            *config,
            sources@,
            match edited {
                Some(es) => Some(es@),
                None => None,
            },
            *facts,
        ) {
            Some(t) => r matches Err(d) && describes(d, t),
            None => r is Ok,
        },
{
    let main = match config.input.path() {
        Some(p) => p,
        None => {
            return Err(
                Diagnostic::error(
                    "edit-input-stdin",
                    Stage::Discovery,
                    "edit validation requires a path-based input so the edited project's main source identity is established; stdin has no project identity",
                ),
            );
        },
    };
    let kind = match resolve_kind(config.kind, main.as_str()) {
        Ok(k) => k,
        Err(d) => {
            return Err(d);
        },
    };
    let mut at_hand = match edited {
        Some(es) => any_same_file(es, main.as_str(), facts),
        None => false,
    };
    if !at_hand && sources.get(main.as_str()).is_some() {
        at_hand = true;
    }
    if !at_hand {
        if let Err(e) = &facts.main_read {
            let mut m = String::new();
            m.append("cannot read input '");
            m.append(main.as_str());
            m.append("': ");
            m.append(e.as_str());
            return Err(Diagnostic::error("input-io", Stage::Discovery, m.as_str()));
        }
    }
    Ok(kind)
}

/// The result of validating a proposed transaction.
#[derive(Debug, Clone)]
pub struct EditValidation {
    pub ok: bool,
    pub exit: u8,
    pub diagnostics: Vec<Diagnostic>,
    pub preview: Option<Vec<SourcePreview>>,
}

pub open spec fn unknown_source_message(source: Seq<char>) -> Seq<char> {
    "the edit targets '"@ + source
        + "' but no current text was provided for it; supply the current source so the version precondition can be verified"@
}

pub open spec fn stale_source_message(source: Seq<char>) -> Seq<char> {
    "the edit for '"@ + source
        + "' targets a different source version (identity mismatch); re-fetch the source and retry"@
}

/// Why an edit's version precondition fails, if it does: no current text
/// for its source, or a current text whose identity differs from the one the
/// edit was made against.
pub open spec fn edit_precondition(texts: Map<Seq<char>, Seq<char>>, e: SourceEdit) -> Option<
    DiagSpec,
> {
    if !texts.contains_key(e.source@) {
        Some(("edit-unknown-source"@, Stage::Discovery, unknown_source_message(e.source@)))
    } else if crate::identity_of(texts[e.source@]) != e.source_identity@ {
        Some(("edit-stale-source"@, Stage::Discovery, stale_source_message(e.source@)))
    } else {
        None
    }
}

/// The precondition failures of a transaction's edits, in edit order.
pub open spec fn precondition_failures(texts: Map<Seq<char>, Seq<char>>, es: Seq<SourceEdit>) -> Seq<
    DiagSpec,
>
    decreases es.len(),
{
    if es.len() == 0 {
        Seq::<DiagSpec>::empty()
    } else {
        let rest = precondition_failures(texts, es.drop_last());
        match edit_precondition(texts, es.last()) {
            Some(d) => rest.push(d),
            None => rest,
        }
    }
}

pub(crate) fn check_preconditions(sources: &SourceTexts, es: &[SourceEdit]) -> (ds: Vec<Diagnostic>)
    requires
        sources.wf(),
    ensures
        describes_all(ds@, precondition_failures(sources@, es@)),
        ds@.len() == 0 ==> texts_cover(sources@, es@),
{
    let mut ds: Vec<Diagnostic> = Vec::new();
    let mut i: usize = 0;
    while i < es.len()
        invariant
            i <= es@.len(),
            sources.wf(),
            describes_all(ds@, precondition_failures(sources@, es@.take(i as int))),
            ds@.len() == 0 ==> texts_cover(sources@, es@.take(i as int)),
        decreases es@.len() - i,
    {
        let e = &es[i];
        proof {
            assert(es@.take(i + 1).drop_last() =~= es@.take(i as int));
            assert(es@.take(i + 1).last() == es@[i as int]);
        }
        let ghost before = ds@;
        match sources.get(e.source.as_str()) {
            None => {
                let mut m = String::new();
                m.append("the edit targets '");
                m.append(e.source.as_str());
                m.append(
                    "' but no current text was provided for it; supply the current source so the version precondition can be verified",
                );
                ds.push(Diagnostic::error("edit-unknown-source", Stage::Discovery, m.as_str()));
            },
            Some(current) => {
                let identity = crate::input_identity(current.as_str());
                if identity != e.source_identity {
                    let mut m = String::new();
                    m.append("the edit for '");
                    m.append(e.source.as_str());
                    m.append(
                        "' targets a different source version (identity mismatch); re-fetch the source and retry",
                    );
                    ds.push(Diagnostic::error("edit-stale-source", Stage::Discovery, m.as_str()));
                } else {
                    proof {
                        if before.len() == 0 {
                            assert forall|k: int| 0 <= k < i + 1 implies sources@.contains_key(
                                #[trigger] es@.take(i + 1)[k].source@,
                            ) by {
                                if k < i {
                                    assert(es@.take(i + 1)[k] == es@.take(i as int)[k]);
                                }
                            }
                        }
                    }
                }
            },
        }
        proof {
            let pf = precondition_failures(sources@, es@.take(i + 1));
            assert forall|k: int| 0 <= k < ds@.len() implies #[trigger] describes(ds@[k], pf[k]) by {
                if k < before.len() {
                    assert(ds@[k] == before[k]);
                }
            }
        }
        i = i + 1;
    }
    assert(es@.take(i as int) =~= es@);
    ds
}

fn has_error(ds: &[Diagnostic]) -> (r: bool)
    ensures
        r == crate::result::has_error_in(ds@),
{
    let mut i: usize = 0;
    while i < ds.len()
        invariant
            i <= ds@.len(),
            forall|j: int| 0 <= j < i ==> ds@[j].severity != Severity::Error,
        decreases ds@.len() - i,
    {
        if ds[i].severity == Severity::Error {
            return true;
        }
        i = i + 1;
    }
    false
}

fn refusal(diagnostics: Vec<Diagnostic>) -> (v: EditValidation)
    ensures
        !v.ok,
        v.preview is None,
        v.diagnostics@ == diagnostics@,
        v.exit == exit_code_of(diagnostics@),
{
    let exit = exit_code_from(diagnostics.as_slice());
    EditValidation { ok: false, exit, diagnostics, preview: None }
}

/// Validates a transaction against the current sources and the project.
///
/// Every edit's version precondition is checked first (all failures are
/// reported together); then the transaction is applied; then the edited
/// project is set up. The project is then handed to the source provider,
/// which is not shipped, so a transaction that gets that far is refused with
/// that diagnostic. A refused validation carries no preview.
pub fn validate_transaction(
    config: &SessionConfig,
    sources: &SourceTexts,
    transaction: &EditTransaction,
    facts: &PathFacts,
) -> (v: EditValidation)
    requires
        sources.wf(),
        facts.canonical.wf(),
    ensures
        !v.ok,
        v.preview is None,
        v.exit == exit_code_of(v.diagnostics@),
        precondition_failures(sources@, transaction.edits@).len() > 0 ==> describes_all(
            v.diagnostics@,
            precondition_failures(sources@, transaction.edits@),
        ),
        precondition_failures(sources@, transaction.edits@).len() == 0 && !all_sources_apply(
            sources@,
            transaction.edits@,
        ) ==> v.diagnostics@.len() == 1 && exists|s: Seq<char>|
            first_failing_source(sources@, transaction.edits@, s) && invalid_range(
                v.diagnostics@[0],
                #[trigger] source_result(sources@, transaction.edits@, s)->Err_0,
            ),
        precondition_failures(sources@, transaction.edits@).len() == 0 && all_sources_apply(
            sources@,
            transaction.edits@,
        ) ==> describes_all(
            v.diagnostics@,
            seq![
                match context_failure(*config, sources@, Some(transaction.edits@), *facts) {
                    Some(t) => t,
                    None => provider_unavailable(),
                },
            ],
        ),
{
    let es = transaction.edits.as_slice();
    let mut diagnostics = check_preconditions(sources, es);
    if has_error(diagnostics.as_slice()) {
        return refusal(diagnostics);
    }
    proof {
        if diagnostics@.len() > 0 {
            assert(describes(diagnostics@[0], precondition_failures(sources@, es@)[0]));
            assert(crate::result::has_error_in(diagnostics@));
        }
    }
    let _previews = match apply_transaction(sources, transaction) {
        Ok(previews) => previews,
        Err(d) => {
            diagnostics.push(d);
            assert(diagnostics@ =~= seq![d]);
            return refusal(diagnostics);
        },
    };
    match project_context(config, sources, Some(es), facts) {
        Ok(_) => {},
        Err(d) => {
            diagnostics.push(d);
            assert(diagnostics@ =~= seq![d]);
            return refusal(diagnostics);
        },
    }
    diagnostics.push(provider_unavailable_diagnostic());
    refusal(diagnostics)
}

/// A rename position and the new name.
#[derive(Debug, Clone)]
pub struct RenameTarget {
    pub source: String,
    pub line: u32,
    pub col: u32,
    pub to: String,
}

/// The outcome of a semantic rename.
#[derive(Debug, Clone)]
pub struct SemanticRename {
    pub ok: bool,
    pub transaction: Option<EditTransaction>,
    pub diagnostics: Vec<Diagnostic>,
    pub preview: Option<Vec<SourcePreview>>,
}

/// The refusal of a rename to an empty name.
pub open spec fn empty_new_name() -> DiagSpec {
    ("rename-invalid-name"@, Stage::Discovery, "rename requires a non-empty new name"@)
}

fn refuse_rename(diagnostics: Vec<Diagnostic>) -> (r: SemanticRename)
    ensures
        !r.ok,
        r.transaction is None,
        r.preview is None,
        r.diagnostics@ == diagnostics@,
{
    SemanticRename { ok: false, transaction: None, diagnostics, preview: None }
}

/// Renames the symbol at a position across the project. A rename needs a
/// non-empty new name and a project that can be set up for validation; the
/// project's symbols come from the source provider, which is not shipped, so
/// every rename is refused, with the first of those reasons that applies.
pub fn semantic_rename(
    config: &SessionConfig,
    sources: &SourceTexts,
    target: &RenameTarget,
    facts: &PathFacts,
) -> (r: SemanticRename)
    requires
        sources.wf(),
        facts.canonical.wf(),
    ensures
        !r.ok,
        r.transaction is None,
        r.preview is None,
        describes_all(
            r.diagnostics@,
            seq![
                if target.to@.len() == 0 {
                    empty_new_name()
                } else {
                    match context_failure(*config, sources@, None, *facts) {
                        Some(t) => t,
                        None => provider_unavailable(),
                    }
                },
            ],
        ),
{
    let to = chars_of(target.to.as_str());
    if to.len() == 0 {
        let d = Diagnostic::error(
            "rename-invalid-name",
            Stage::Discovery,
            "rename requires a non-empty new name",
        );
        let ds = vec![d];
        assert(ds@ =~= seq![d]);
        return refuse_rename(ds);
    }
    let d = match project_context(config, sources, None, facts) {
        Ok(_) => provider_unavailable_diagnostic(),
        Err(d) => d,
    };
    let ds = vec![d];
    assert(ds@ =~= seq![d]);
    refuse_rename(ds)
}

// ---------------------------------------------------------------------------
// Laws.
// ---------------------------------------------------------------------------

/// Mapping two sequences with equal multisets gives sequences with equal
/// multisets.
proof fn lemma_map_multiset<A, B>(s1: Seq<A>, s2: Seq<A>, f: spec_fn(A) -> B)
    requires
        s1.to_multiset() == s2.to_multiset(),
    ensures
        s1.map_values(f).to_multiset() == s2.map_values(f).to_multiset(),
    decreases s1.len(),
{
    if s1.len() == 0 {
        assert(s2.to_multiset().len() == 0);
        assert(s1.map_values(f) =~= Seq::<B>::empty());
        assert(s2.map_values(f) =~= Seq::<B>::empty());
    } else {
        let x = s1.last();
        let init = s1.drop_last();
        assert(s1 =~= init.push(x));
        assert(s1.to_multiset() =~= init.to_multiset().insert(x));
        assert(s2.to_multiset().contains(x));
        assert(s2.contains(x));
        let j = s2.index_of(x);
        let r2 = s2.remove(j);
        assert(r2.to_multiset() =~= s2.to_multiset().remove(x));
        assert(init.to_multiset() =~= s1.to_multiset().remove(x));
        lemma_map_multiset(init, r2, f);
        assert(s1.map_values(f) =~= init.map_values(f).push(f(x)));
        assert(s2.map_values(f) =~= r2.map_values(f).insert(j, f(x)));
        assert(s1.map_values(f).to_multiset() =~= init.map_values(f).to_multiset().insert(f(x)));
        assert(s2.map_values(f).to_multiset() =~= r2.map_values(f).to_multiset().insert(f(x)));
    }
}

/// The order a transaction gives its edits does not depend on the order in
/// which they were proposed: the same edits, in any order, are normalized to
/// the same sequence of keys.
pub proof fn law_transaction_order_is_deterministic(es1: Seq<SourceEdit>, es2: Seq<SourceEdit>)
    requires
        es1.to_multiset() == es2.to_multiset(),
    ensures
        sorted_keys(es1) == sorted_keys(es2),
{
    lemma_map_multiset(es1, es2, |e: SourceEdit| edit_key(e));
    assert(edit_keys(es1).to_multiset() == edit_keys(es2).to_multiset());
    lemma_key_order_total();
    edit_keys(es1).lemma_sort_by_ensures(key_order());
    edit_keys(es2).lemma_sort_by_ensures(key_order());
    vstd::seq_lib::lemma_sorted_unique(sorted_keys(es1), sorted_keys(es2), key_order());
}

/// Normalizing a normalized transaction changes nothing: when `new` accepts
/// a list of edits and returns them as `ts`, it accepts `ts` too and keeps
/// their order.
pub proof fn law_normalization_is_stable(es: Seq<SourceEdit>, ts: Seq<SourceEdit>)
    requires
        es.len() > 0,
        no_conflict_before(sorted_keys(es), sorted_keys(es).len() as int),
        ts.to_multiset() == es.to_multiset(),
        edit_keys(ts) == sorted_keys(es),
    ensures
        ts.len() > 0,
        sorted_keys(ts) == edit_keys(ts),
        no_conflict_before(sorted_keys(ts), sorted_keys(ts).len() as int),
{
    assert(ts.to_multiset().len() == es.to_multiset().len());
    assert(ts.len() == ts.to_multiset().len());
    assert(es.len() == es.to_multiset().len());
    law_transaction_order_is_deterministic(ts, es);
    lemma_key_order_total();
    edit_keys(ts).lemma_sort_by_ensures(key_order());
}

proof fn lemma_rename_same_name(line: Seq<char>, x: Seq<char>, pos: int)
    requires
        x.len() > 0,
        0 <= pos <= line.len(),
    ensures
        rename_from(line, x, x, pos) == line.skip(pos),
    decreases line.len() - pos,
{
    lemma_first_from(line, x, pos);
    match first_from(line, x, pos) {
        None => {},
        Some(i) => {
            let e = i + x.len();
            lemma_rename_same_name(line, x, e);
            assert(line.subrange(pos, i) + x =~= line.subrange(pos, e));
            assert(line.subrange(pos, e) + line.skip(e) =~= line.skip(pos));
        },
    }
}

/// Renaming a name to itself leaves every source unchanged.
pub proof fn law_rename_to_same_name_is_identity(source: Seq<char>, name: Seq<char>)
    requires
        name.len() > 0,
    ensures
        renamed_text(source, name, name) == source,
{
    let ls = split_lines(source);
    assert forall|i: int| 0 <= i < ls.len() implies #[trigger] rename_line(ls[i], name, name)
        == ls[i] by {
        lemma_rename_same_name(ls[i], name, 0);
        assert(ls[i].skip(0) =~= ls[i]);
    }
    assert(ls.map_values(|l: Seq<char>| rename_line(l, name, name)) =~= ls);
    crate::text::lemma_join_split(source);
}

} // verus!
