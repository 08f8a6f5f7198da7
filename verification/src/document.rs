//! Open editor documents: client versions, UTF-16 positions, and the file
//! URIs that name them.

use vstd::prelude::*;

use crate::edit::{
    SourceTexts, lemma_insert_strictly_sorted, lemma_strictly_sorted_distinct, strictly_sorted,
};
use crate::paths::{path_file_name_of, path_strip_prefix_of};
use crate::text::{
    chars_of, copy_string, lemma_seq_le_antisym, lemma_seq_le_total, lemma_seq_le_trans, seq_le, std_lines,
    std_lines_exec, str_eq, str_le, views,
};

verus! {

broadcast use vstd::string::group_string_axioms;

/// A zero-based line and UTF-16 character position, as editors count.
#[derive(Debug, Clone, Copy, PartialEq, Eq, Structural)]
pub struct Position {
    pub line: u32,
    pub character: u32,
}

/// A range between two editor positions.
#[derive(Debug, Clone, Copy, PartialEq, Eq, Structural)]
pub struct Range {
    pub start: Position,
    pub end: Position,
}

/// One open document: its URI, current text and client version.
#[derive(Debug, Clone)]
pub struct Document {
    pub uri: String,
    pub text: String,
    pub version: i32,
    pub root: String,
}

// ---------------------------------------------------------------------------
// UTF-16 offsets.
// ---------------------------------------------------------------------------

/// The UTF-16 code units of a character: two outside the basic multilingual
/// plane, one inside it (`char::len_utf16`).
pub open spec fn utf16_units(c: char) -> nat {
    if (c as u32) >= 0x10000 {
        2
    } else {
        1
    }
}

/// The UTF-16 length of a character sequence.
pub open spec fn utf16_length(s: Seq<char>) -> nat
    decreases s.len(),
{
    if s.len() == 0 {
        0
    } else {
        utf16_length(s.drop_last()) + utf16_units(s.last())
    }
}

/// The number of characters a scan consumes to reach UTF-16 offset `off`:
/// characters are taken while the UTF-16 units taken so far are below
/// `off`, so an offset inside a surrogate pair rounds up.
pub open spec fn chars_before_utf16(s: Seq<char>, off: int) -> nat
    decreases s.len(),
{
    if s.len() == 0 || off <= 0 {
        0
    } else {
        1 + chars_before_utf16(s.drop_first(), off - utf16_units(s[0]))
    }
}

fn len_utf16(c: char) -> (n: usize)
    ensures
        n == utf16_units(c),
{
    if (c as u32) >= 0x10000 {
        2
    } else {
        1
    }
}

proof fn lemma_utf16_length_push(s: Seq<char>, c: char)
    ensures
        utf16_length(s.push(c)) == utf16_length(s) + utf16_units(c),
{
    assert(s.push(c).drop_last() =~= s);
}

proof fn lemma_utf16_length_append(a: Seq<char>, b: Seq<char>)
    ensures
        utf16_length(a + b) == utf16_length(a) + utf16_length(b),
    decreases b.len(),
{
    if b.len() > 0 {
        lemma_utf16_length_append(a, b.drop_last());
        assert((a + b).drop_last() =~= a + b.drop_last());
    } else {
        assert(a + b =~= a);
    }
}

/// A string has no more UTF-16 code units than UTF-8 bytes.
pub proof fn lemma_utf16_within_utf8(s: Seq<char>)
    ensures
        utf16_length(s) <= vstd::utf8::encode_utf8(s).len(),
    decreases s.len(),
{
    if s.len() > 0 {
        lemma_utf16_within_utf8(s.drop_first());
        assert(s =~= seq![s[0]] + s.drop_first());
        lemma_utf16_length_prepend(s[0], s.drop_first());
        let v = s[0] as u32;
        assert(vstd::utf8::encode_scalar(v).len() >= utf16_units(s[0]));
    }
}

/// The UTF-16 length is at most twice the length.
pub proof fn lemma_utf16_length_bound(s: Seq<char>)
    ensures
        utf16_length(s) <= 2 * s.len(),
    decreases s.len(),
{
    if s.len() > 0 {
        lemma_utf16_length_bound(s.drop_last());
    }
}

/// The number of UTF-16 code units of a string.
pub fn utf16_len(s: &str) -> (n: usize)
    ensures
        n == utf16_length(s@),
{
    let bytes = s.as_bytes().len();
    let c = chars_of(s);
    proof {
        lemma_utf16_within_utf8(s@);
    }
    let mut n: usize = 0;
    let mut i: usize = 0;
    while i < c.len()
        invariant
            i <= c@.len(),
            n == utf16_length(c@.take(i as int)),
            utf16_length(c@) <= bytes,
        decreases c@.len() - i,
    {
        proof {
            assert(c@.take(i + 1) =~= c@.take(i as int).push(c@[i as int]));
            lemma_utf16_length_push(c@.take(i as int), c@[i as int]);
            lemma_utf16_length_append(c@.take(i + 1), c@.skip(i + 1));
            assert(c@.take(i + 1) + c@.skip(i + 1) =~= c@);
        }
        n = n + len_utf16(c[i]);
        i = i + 1;
    }
    assert(c@.take(i as int) =~= c@);
    n
}

/// The character offset in `line` of a UTF-16 offset; an offset inside a
/// surrogate pair rounds up to the next character boundary, and an offset
/// past the end gives the line's length.
pub fn utf16_offset_to_char(line: &str, utf16_offset: usize) -> (n: usize)
    ensures
        n == chars_before_utf16(line@, utf16_offset as int),
{
    let bytes = line.as_bytes().len();
    let c = chars_of(line);
    proof {
        lemma_utf16_within_utf8(line@);
        assert(c@.skip(0) =~= c@);
    }
    let mut chars: usize = 0;
    let mut utf16: usize = 0;
    while chars < c.len() && utf16 < utf16_offset
        invariant
            chars <= c@.len(),
            utf16 == utf16_length(c@.take(chars as int)),
            utf16_length(c@) <= bytes,
            chars_before_utf16(c@, utf16_offset as int) == chars + chars_before_utf16(
                c@.skip(chars as int),
                utf16_offset - utf16,
            ),
        decreases c@.len() - chars,
    {
        proof {
            assert(c@.take(chars + 1) =~= c@.take(chars as int).push(c@[chars as int]));
            lemma_utf16_length_push(c@.take(chars as int), c@[chars as int]);
            assert(c@.skip(chars as int).drop_first() =~= c@.skip(chars + 1));
            assert(c@.skip(chars as int)[0] == c@[chars as int]);
            lemma_utf16_length_append(c@.take(chars + 1), c@.skip(chars + 1));
            assert(c@.take(chars + 1) + c@.skip(chars + 1) =~= c@);
        }
        utf16 = utf16 + len_utf16(c[chars]);
        chars = chars + 1;
    }
    chars
}

/// The UTF-16 offset of the first `char_offset` characters of `line`.
pub fn char_offset_to_utf16(line: &str, char_offset: usize) -> (n: usize)
    ensures
        n == utf16_length(line@.take(if char_offset <= line@.len() {
            char_offset as int
        } else {
            line@.len() as int
        })),
{
    let bytes = line.as_bytes().len();
    let c = chars_of(line);
    proof {
        lemma_utf16_within_utf8(line@);
    }
    let mut n: usize = 0;
    let mut i: usize = 0;
    while i < c.len() && i < char_offset
        invariant
            i <= c@.len(),
            i <= char_offset,
            c@ == line@,
            n == utf16_length(c@.take(i as int)),
            utf16_length(c@) <= bytes,
        decreases c@.len() - i,
    {
        proof {
            assert(c@.take(i + 1) =~= c@.take(i as int).push(c@[i as int]));
            lemma_utf16_length_push(c@.take(i as int), c@[i as int]);
            lemma_utf16_length_append(c@.take(i + 1), c@.skip(i + 1));
            assert(c@.take(i + 1) + c@.skip(i + 1) =~= c@);
        }
        n = n + len_utf16(c[i]);
        i = i + 1;
    }
    n
}

proof fn lemma_chars_before_prefix(s: Seq<char>, k: int)
    requires
        0 <= k <= s.len(),
    ensures
        chars_before_utf16(s, utf16_length(s.take(k)) as int) == k,
    decreases k,
{
    if k > 0 {
        let t = s.drop_first();
        lemma_chars_before_prefix(t, k - 1);
        assert(s.take(k) =~= seq![s[0]] + t.take(k - 1));
        lemma_utf16_length_prepend(s[0], t.take(k - 1));
    }
}

proof fn lemma_utf16_length_prepend(c: char, s: Seq<char>)
    ensures
        utf16_length(seq![c] + s) == utf16_units(c) + utf16_length(s),
    decreases s.len(),
{
    if s.len() > 0 {
        lemma_utf16_length_prepend(c, s.drop_last());
        assert((seq![c] + s).drop_last() =~= seq![c] + s.drop_last());
    } else {
        assert(seq![c] + s =~= seq![c]);
        assert(seq![c].drop_last() =~= Seq::<char>::empty());
        assert(utf16_length(Seq::<char>::empty()) == 0);
        assert(utf16_length(seq![c]) == utf16_length(seq![c].drop_last()) + utf16_units(c));
    }
}

/// Converting a character offset within a line to UTF-16 and back gives the
/// offset again.
pub proof fn law_utf16_offsets_round_trip(line: Seq<char>, k: int)
    requires
        0 <= k <= line.len(),
    ensures
        chars_before_utf16(line, utf16_length(line.take(k)) as int) == k,
{
    lemma_chars_before_prefix(line, k);
}

/// The character offset of a UTF-16 offset `u` is the least character
/// offset whose UTF-16 offset reaches `u`, or the line's length when none
/// does.
pub proof fn law_utf16_offset_is_least_reaching(line: Seq<char>, u: int)
    ensures
        chars_before_utf16(line, u) <= line.len(),
        forall|j: int|
            0 <= j < chars_before_utf16(line, u) ==> utf16_length(#[trigger] line.take(j)) < u,
        chars_before_utf16(line, u) < line.len() ==> utf16_length(
            line.take(chars_before_utf16(line, u) as int),
        ) >= u,
    decreases line.len(),
{
    if line.len() == 0 || u <= 0 {
        assert(line.take(0) =~= Seq::<char>::empty());
    } else {
        let t = line.drop_first();
        let w = utf16_units(line[0]);
        law_utf16_offset_is_least_reaching(t, u - w);
        let k = chars_before_utf16(line, u);
        assert forall|j: int| 0 <= j < k implies utf16_length(#[trigger] line.take(j)) < u by {
            if j == 0 {
                assert(line.take(0) =~= Seq::<char>::empty());
            } else {
                assert(line.take(j) =~= seq![line[0]] + t.take(j - 1));
                lemma_utf16_length_prepend(line[0], t.take(j - 1));
            }
        }
        if k < line.len() {
            assert(line.take(k as int) =~= seq![line[0]] + t.take(k - 1));
            lemma_utf16_length_prepend(line[0], t.take(k - 1));
        }
    }
}

// ---------------------------------------------------------------------------
// Documents.
// ---------------------------------------------------------------------------

impl Document {
    /// A document at a client version.
    pub fn with_version(uri: &str, text: &str, root: &str, version: i32) -> (d: Document)
        ensures
            d.uri@ == uri@,
            d.text@ == text@,
            d.root@ == root@,
            d.version == version,
    {
        Document {
            uri: crate::text::owned(uri),
            text: crate::text::owned(text),
            version,
            root: crate::text::owned(root),
        }
    }

    /// A document at version 0.
    pub fn new(uri: &str, text: &str, root: &str) -> (d: Document)
        ensures
            d.uri@ == uri@,
            d.text@ == text@,
            d.root@ == root@,
            d.version == 0,
    {
        Self::with_version(uri, text, root, 0)
    }

    /// The editor range of a 1-based span of this document.
    pub fn from_span(&self, start: crate::ir::Position, end: crate::ir::Position) -> (r: Range)
        ensures
            r == span_range(start.line, start.col, end.line, end.col, self.text@),
    {
        span_to_range(start, end, self.text.as_str())
    }

    /// The 1-based line and character of an editor position: the line is
    /// clamped to the document's last line (as `str::lines` counts them,
    /// at least one), and the UTF-16 character offset is converted within
    /// that line.
    pub fn to_line_col(&self, position: Position) -> (r: (u32, u32))
        requires
            self.text@.len() < usize::MAX,
        ensures
            ({
                let ls = std_lines(self.text@);
                let n = if ls.len() == 0 {
                    1
                } else {
                    ls.len() as int
                };
                let line = if (position.line as int) < n - 1 {
                    position.line as int
                } else {
                    n - 1
                };
                let text = if line < ls.len() {
                    ls[line]
                } else {
                    Seq::<char>::empty()
                };
                r == ((line + 1) as u32, (chars_before_utf16(text, position.character as int)
                    + 1) as u32)
            }),
    {
        let c = chars_of(self.text.as_str());
        let lines = std_lines_exec(c.as_slice());
        proof {
            crate::text::lemma_std_lines_bounds(self.text@);
        }
        let n = if lines.len() == 0 {
            1
        } else {
            lines.len()
        };
        let line: usize = if (position.line as usize) < n - 1 {
            position.line as usize
        } else {
            n - 1
        };
        let text: Vec<char> = if line < lines.len() {
            lines[line].clone()
        } else {
            Vec::new()
        };
        let s = crate::text::string_from_chars(text.as_slice());
        let character = utf16_offset_to_char(s.as_str(), position.character as usize);
        proof {
            if line < lines@.len() {
                assert(text@ == std_lines(self.text@)[line as int]);
            }
            lemma_chars_before_bound(s@, position.character as int);
        }
        ((line + 1) as u32, (character + 1) as u32)
    }
}

proof fn lemma_chars_before_bound(s: Seq<char>, off: int)
    ensures
        chars_before_utf16(s, off) <= s.len(),
    decreases s.len(),
{
    if s.len() > 0 && off > 0 {
        lemma_chars_before_bound(s.drop_first(), off - utf16_units(s[0]));
    }
}

/// The map a list of documents with distinct URIs denotes.
pub open spec fn docs_map(ds: Seq<Document>) -> Map<Seq<char>, Document>
    decreases ds.len(),
{
    if ds.len() == 0 {
        Map::empty()
    } else {
        docs_map(ds.drop_last()).insert(ds.last().uri@, ds.last())
    }
}

/// The URIs of a list of documents.
pub open spec fn doc_uris(ds: Seq<Document>) -> Seq<Seq<char>> {
    ds.map_values(|d: Document| d.uri@)
}

proof fn lemma_docs_map(ds: Seq<Document>)
    requires
        strictly_sorted(doc_uris(ds)),
    ensures
        forall|k: Seq<char>|
            #[trigger] docs_map(ds).contains_key(k) <==> doc_uris(ds).contains(k),
        forall|i: int| 0 <= i < ds.len() ==> #[trigger] docs_map(ds)[ds[i].uri@] == ds[i],
    decreases ds.len(),
{
    if ds.len() > 0 {
        let init = ds.drop_last();
        assert(doc_uris(init) =~= doc_uris(ds).drop_last());
        lemma_docs_map(init);
        assert(docs_map(ds) == docs_map(init).insert(ds.last().uri@, ds.last()));
        assert forall|k: Seq<char>| #[trigger]
            docs_map(ds).contains_key(k) <==> doc_uris(ds).contains(k) by {
            if doc_uris(ds).contains(k) {
                let i = choose|i: int| 0 <= i < doc_uris(ds).len() && doc_uris(ds)[i] == k;
                if i < ds.len() - 1 {
                    assert(doc_uris(init)[i] == k);
                }
            }
            if docs_map(init).contains_key(k) {
                let i = choose|i: int| 0 <= i < doc_uris(init).len() && doc_uris(init)[i] == k;
                assert(doc_uris(ds)[i] == k);
            }
            if k == ds.last().uri@ {
                assert(doc_uris(ds)[ds.len() - 1] == k);
            }
        }
        assert forall|i: int| 0 <= i < ds.len() implies #[trigger] docs_map(ds)[ds[i].uri@]
            == ds[i] by {
            if i < ds.len() - 1 {
                assert(init[i] == ds[i]);
                lemma_strictly_sorted_distinct(doc_uris(ds), i, ds.len() - 1);
                assert(docs_map(init)[init[i].uri@] == init[i]);
            }
        }
    }
}

/// The index of a present URI.
proof fn lemma_docs_index(ds: Seq<Document>, k: Seq<char>) -> (i: int)
    requires
        doc_uris(ds).contains(k),
    ensures
        0 <= i < ds.len(),
        ds[i].uri@ == k,
{
    let i = choose|i: int| 0 <= i < doc_uris(ds).len() && doc_uris(ds)[i] == k;
    assert(doc_uris(ds)[i] == ds[i].uri@);
    i
}

/// Replacing a document by one with the same URI.
proof fn lemma_docs_update(ds: Seq<Document>, j: int, d: Document)
    requires
        strictly_sorted(doc_uris(ds)),
        0 <= j < ds.len(),
        ds[j].uri@ == d.uri@,
    ensures
        strictly_sorted(doc_uris(ds.update(j, d))),
        docs_map(ds.update(j, d)) =~= docs_map(ds).insert(d.uri@, d),
{
    let t = ds.update(j, d);
    assert(doc_uris(t) =~= doc_uris(ds));
    lemma_docs_map(ds);
    lemma_docs_map(t);
    let m = docs_map(ds).insert(d.uri@, d);
    assert(doc_uris(ds)[j] == d.uri@);
    assert forall|k: Seq<char>| #[trigger] docs_map(t).contains_key(k) == m.contains_key(k) by {}
    assert forall|k: Seq<char>| #[trigger] docs_map(t).contains_key(k) implies docs_map(t)[k]
        == m[k] by {
        let i = lemma_docs_index(t, k);
        assert(docs_map(t)[t[i].uri@] == t[i]);
        if i != j {
            assert(t[i] == ds[i]);
            lemma_strictly_sorted_distinct(doc_uris(ds), i, j);
            assert(docs_map(ds)[ds[i].uri@] == ds[i]);
        }
    }
}

/// Inserting a document with a new URI at its place in URI order.
proof fn lemma_docs_insert(ds: Seq<Document>, j: int, d: Document)
    requires
        strictly_sorted(doc_uris(ds)),
        0 <= j <= ds.len(),
        forall|k: int| 0 <= k < j ==> seq_le(ds[k].uri@, d.uri@) && ds[k].uri@ != d.uri@,
        j < ds.len() ==> seq_le(d.uri@, ds[j].uri@) && ds[j].uri@ != d.uri@,
    ensures
        strictly_sorted(doc_uris(ds.insert(j, d))),
        docs_map(ds.insert(j, d)) =~= docs_map(ds).insert(d.uri@, d),
{
    let t = ds.insert(j, d);
    ds.insert_ensures(j, d);
    assert forall|k: int| 0 <= k < j implies seq_le(#[trigger] doc_uris(ds)[k], d.uri@) && doc_uris(
        ds,
    )[k] != d.uri@ by {
        assert(doc_uris(ds)[k] == ds[k].uri@);
    }
    if j < ds.len() {
        assert(doc_uris(ds)[j] == ds[j].uri@);
    }
    lemma_insert_strictly_sorted(doc_uris(ds), j, d.uri@);
    assert forall|k: int| 0 <= k < t.len() implies #[trigger] doc_uris(t)[k] == doc_uris(
        ds,
    ).insert(j, d.uri@)[k] by {
        doc_uris(ds).insert_ensures(j, d.uri@);
        if k > j {
            assert(t[(k - 1) + 1] == ds[k - 1]);
            assert(doc_uris(ds).insert(j, d.uri@)[(k - 1) + 1] == doc_uris(ds)[k - 1]);
        }
    }
    assert(doc_uris(t) =~= doc_uris(ds).insert(j, d.uri@));
    lemma_docs_map(ds);
    lemma_docs_map(t);
    let m = docs_map(ds).insert(d.uri@, d);
    assert forall|k: Seq<char>| #[trigger] docs_map(t).contains_key(k) == m.contains_key(k) by {
        if docs_map(ds).contains_key(k) {
            let i = lemma_docs_index(ds, k);
            let i2 = if i < j {
                i
            } else {
                i + 1
            };
            assert(t[i2] == ds[i]);
            assert(doc_uris(t)[i2] == k);
        }
        if docs_map(t).contains_key(k) {
            let i = lemma_docs_index(t, k);
            if i < j {
                assert(doc_uris(ds)[i] == k);
            } else if i > j {
                assert(t[(i - 1) + 1] == ds[i - 1]);
                assert(doc_uris(ds)[i - 1] == k);
            }
        }
        assert(doc_uris(t)[j] == d.uri@);
    }
    assert forall|k: Seq<char>| #[trigger] docs_map(t).contains_key(k) implies docs_map(t)[k]
        == m[k] by {
        let i = lemma_docs_index(t, k);
        assert(docs_map(t)[t[i].uri@] == t[i]);
        if i < j {
            assert(docs_map(ds)[ds[i].uri@] == ds[i]);
        } else if i > j {
            assert(t[(i - 1) + 1] == ds[i - 1]);
            assert(docs_map(ds)[ds[i - 1].uri@] == ds[i - 1]);
        }
    }
}

/// Removing the document at an index.
proof fn lemma_docs_remove(ds: Seq<Document>, j: int)
    requires
        strictly_sorted(doc_uris(ds)),
        0 <= j < ds.len(),
    ensures
        strictly_sorted(doc_uris(ds.remove(j))),
        docs_map(ds.remove(j)) =~= docs_map(ds).remove(ds[j].uri@),
{
    let t = ds.remove(j);
    ds.remove_ensures(j);
    assert forall|a: int| 0 <= a < t.len() implies #[trigger] doc_uris(t)[a] == doc_uris(ds)[if a
        < j {
        a
    } else {
        a + 1
    }] by {}
    assert forall|a: int, b: int| 0 <= a < b < doc_uris(t).len() implies seq_le(
        doc_uris(t)[a],
        doc_uris(t)[b],
    ) && doc_uris(t)[a] != doc_uris(t)[b] by {
        let a0 = if a < j {
            a
        } else {
            a + 1
        };
        let b0 = if b < j {
            b
        } else {
            b + 1
        };
        assert(doc_uris(t)[a] == doc_uris(ds)[a0]);
        assert(doc_uris(t)[b] == doc_uris(ds)[b0]);
        assert(seq_le(doc_uris(ds)[a0], doc_uris(ds)[b0]) && doc_uris(ds)[a0] != doc_uris(ds)[b0]);
    }
    lemma_docs_map(ds);
    lemma_docs_map(t);
    let gone = ds[j].uri@;
    let m = docs_map(ds).remove(gone);
    assert forall|k: Seq<char>| #[trigger] docs_map(t).contains_key(k) == m.contains_key(k) by {
        if docs_map(ds).contains_key(k) && k != gone {
            let i = lemma_docs_index(ds, k);
            if i < j {
                assert(doc_uris(t)[i] == k);
            } else if i > j {
                assert(doc_uris(t)[i - 1] == k);
            }
        }
        if docs_map(t).contains_key(k) {
            let i = lemma_docs_index(t, k);
            let i0 = if i < j {
                i
            } else {
                i + 1
            };
            assert(doc_uris(t)[i] == doc_uris(ds)[i0]);
            lemma_strictly_sorted_distinct(doc_uris(ds), i0, j);
            assert(doc_uris(ds)[j] == gone);
            assert(doc_uris(ds).contains(k));
        }
    }
    assert forall|k: Seq<char>| #[trigger] docs_map(t).contains_key(k) implies docs_map(t)[k]
        == m[k] by {
        let i = lemma_docs_index(t, k);
        let i0 = if i < j {
            i
        } else {
            i + 1
        };
        assert(t[i] == ds[i0]);
        assert(docs_map(t)[t[i].uri@] == t[i]);
        assert(docs_map(ds)[ds[i0].uri@] == ds[i0]);
    }
}

/// A URI that `slot` does not find is not open.
proof fn lemma_docs_absent(ds: Seq<Document>, j: int, uri: Seq<char>)
    requires
        strictly_sorted(doc_uris(ds)),
        0 <= j <= ds.len(),
        forall|k: int| 0 <= k < j ==> seq_le(ds[k].uri@, uri) && ds[k].uri@ != uri,
        j < ds.len() ==> seq_le(uri, ds[j].uri@) && ds[j].uri@ != uri,
    ensures
        !docs_map(ds).contains_key(uri),
{
    lemma_docs_map(ds);
    if docs_map(ds).contains_key(uri) {
        let i = lemma_docs_index(ds, uri);
        if i > j {
            assert(doc_uris(ds)[j] == ds[j].uri@);
            assert(doc_uris(ds)[i] == ds[i].uri@);
            assert(seq_le(ds[j].uri@, ds[i].uri@));
            lemma_seq_le_antisym(uri, ds[j].uri@);
        }
    }
}

// ---------------------------------------------------------------------------
// File URIs.
// ---------------------------------------------------------------------------

/// The scheme of a URL, as `url::Url::parse` reads it.
pub uninterp spec fn url_scheme_of(s: Seq<char>) -> Option<Seq<char>>;

/// The scheme of `s` parsed as a URL (`url::Url::parse`, then
/// `Url::scheme`); `None` when `s` does not parse. The scheme is named as a
/// function of the text; the URL grammar is not stated.
#[verifier::external_body]
fn url_scheme(s: &str) -> (r: Option<String>)
    ensures
        match r {
            Some(x) => url_scheme_of(s@) == Some(x@),
            None => url_scheme_of(s@) is None,
        },
{
    url::Url::parse(s).ok().map(|u| u.scheme().to_string())
}

/// The file path a URL names, as `url::Url::to_file_path` decodes it.
pub uninterp spec fn url_file_path_of(s: Seq<char>) -> Option<Seq<char>>;

/// The local path a URL names (`url::Url::parse`, then `Url::to_file_path`,
/// converted to UTF-8 text); `None` when `s` does not parse or names no
/// local path. The decoding (percent-escapes, hosts) is not stated.
#[verifier::external_body]
pub(crate) fn url_file_path(s: &str) -> (r: Option<String>)
    ensures
        match r {
            Some(x) => url_file_path_of(s@) == Some(x@),
            None => url_file_path_of(s@) is None,
        },
{
    url::Url::parse(s).ok().and_then(|u| u.to_file_path().ok()).map(
        |p| p.to_string_lossy().into_owned(),
    )
}

/// The normalized text of a URL, as `url::Url` serializes it.
pub uninterp spec fn url_text_of(s: Seq<char>) -> Option<Seq<char>>;

/// `s` parsed as a URL and serialized again (`url::Url::parse`, then
/// `to_string`); `None` when it does not parse. The normalization is not
/// stated.
#[verifier::external_body]
fn url_text(s: &str) -> (r: Option<String>)
    ensures
        match r {
            Some(x) => url_text_of(s@) == Some(x@),
            None => url_text_of(s@) is None,
        },
{
    url::Url::parse(s).ok().map(|u| u.to_string())
}

/// The `file:` URL of a path, as `url::Url::from_file_path` builds it.
pub uninterp spec fn file_url_of_path(p: Seq<char>) -> Option<Seq<char>>;

/// The `file:` URL of a path (`url::Url::from_file_path`, serialized);
/// `None` for a relative path. The encoding is not stated.
#[verifier::external_body]
pub(crate) fn file_url(p: &str) -> (r: Option<String>)
    ensures
        match r {
            Some(x) => file_url_of_path(p@) == Some(x@),
            None => file_url_of_path(p@) is None,
        },
{
    url::Url::from_file_path(std::path::Path::new(p)).ok().map(|u| u.to_string())
}

/// Whether two paths are equal component by component, as `Path`'s `==`
/// compares them.
pub uninterp spec fn paths_equal_of(a: Seq<char>, b: Seq<char>) -> bool;

/// `Path::new(a) == Path::new(b)`: equality of the paths' components. The
/// result is named as a function of the two texts; the component rules are
/// not stated.
#[verifier::external_body]
pub(crate) fn paths_equal(a: &str, b: &str) -> (r: bool)
    ensures
        r == paths_equal_of(a@, b@),
{
    std::path::Path::new(a) == std::path::Path::new(b)
}

pub open spec fn opt_view(o: Option<String>) -> Option<Seq<char>> {
    match o {
        Some(x) => Some(x@),
        None => None,
    }
}

/// The local path a document URI names: only `file:` URIs name one.
pub open spec fn uri_path(uri: Seq<char>) -> Option<Seq<char>> {
    if url_scheme_of(uri) == Some("file"@) {
        url_file_path_of(uri)
    } else {
        None
    }
}

/// The local path a `file:` URI names; other URIs name none.
pub fn uri_to_path(uri: &str) -> (r: Option<String>)
    ensures
        opt_view(r) == uri_path(uri@),
{
    match url_scheme(uri) {
        Some(scheme) => {
            if str_eq(scheme.as_str(), "file") {
                url_file_path(uri)
            } else {
                None
            }
        },
        None => None,
    }
}

/// The `file:` URI of an absolute path.
pub fn path_to_uri(path: &str) -> (r: Option<String>)
    ensures
        opt_view(r) == file_url_of_path(path@),
{
    file_url(path)
}

/// The URI of a source given as a `file:` URI (normalized) or as a path.
pub fn source_to_uri(source: &str) -> (r: Option<String>)
    ensures
        opt_view(r) == (if url_scheme_of(source@) == Some("file"@) {
            url_text_of(source@)
        } else {
            file_url_of_path(source@)
        }),
{
    if let Some(scheme) = url_scheme(source) {
        if str_eq(scheme.as_str(), "file") {
            return url_text(source);
        }
    }
    path_to_uri(source)
}

/// The first `k` characters of `s`, or all of `s` when it is shorter.
pub open spec fn clamped_prefix(s: Seq<char>, k: int) -> Seq<char> {
    s.take(if k <= s.len() { k } else { s.len() as int })
}

/// The editor range of a 1-based line/column span in a source: lines
/// become zero-based and columns become UTF-16 offsets within their lines
/// (zero for a line the source does not have).
pub open spec fn span_range(start_line: u32, start_col: u32, end_line: u32, end_col: u32, source: Seq<char>) -> Range {
    let ls = std_lines(source);
    let sl = if start_line >= 1 { start_line - 1 } else { 0 };
    let el = if end_line >= 1 { end_line - 1 } else { 0 };
    let sc = if sl < ls.len() {
        utf16_length(clamped_prefix(ls[sl], if start_col >= 1 { start_col - 1 } else { 0 }))
    } else {
        0
    };
    let ec = if el < ls.len() {
        utf16_length(clamped_prefix(ls[el], if end_col >= 1 { end_col - 1 } else { 0 }))
    } else {
        0
    };
    Range {
        start: Position { line: sl as u32, character: sc as u32 },
        end: Position { line: el as u32, character: ec as u32 },
    }
}

fn line_utf16_prefix(lines: &Vec<Vec<char>>, l: u32, col: u32) -> (n: usize)
    ensures
        n == (if (if l >= 1 { l - 1 } else { 0 }) < lines@.len() {
            let line = lines@[if l >= 1 { l - 1 } else { 0 }]@;
            utf16_length(clamped_prefix(line, if col >= 1 { col - 1 } else { 0 }))
        } else {
            0
        }),
{
    let idx = if l >= 1 { (l - 1) as usize } else { 0 };
    if idx < lines.len() {
        let k = if col >= 1 { (col - 1) as usize } else { 0 };
        let s = crate::text::string_from_chars(lines[idx].as_slice());
        char_offset_to_utf16(s.as_str(), k)
    } else {
        0
    }
}

/// The editor range of a 1-based span in a source.
pub fn span_to_range(start: crate::ir::Position, end: crate::ir::Position, source: &str) -> (r: Range)
    ensures
        r == span_range(start.line, start.col, end.line, end.col, source@),
{
    let c = chars_of(source);
    let lines = std_lines_exec(c.as_slice());
    let sc = line_utf16_prefix(&lines, start.line, start.col);
    let ec = line_utf16_prefix(&lines, end.line, end.col);
    let sl: u32 = if start.line >= 1 { start.line - 1 } else { 0 };
    let el: u32 = if end.line >= 1 { end.line - 1 } else { 0 };
    proof {
        let ls = std_lines(source@);
        assert(views(lines@) == ls);
    }
    Range {
        start: Position { line: sl, character: #[verifier::truncate] (sc as u32) },
        end: Position { line: el, character: #[verifier::truncate] (ec as u32) },
    }
}

/// A document's URI names `path`.
pub open spec fn names_path(d: Document, path: Seq<char>) -> bool {
    uri_path(d.uri@) matches Some(p) && paths_equal_of(p, path)
}

/// The overlay of documents: each document's text under its local path,
/// under that path relative to `root`, and under its file name; a later
/// document overwrites an earlier one's keys.
pub open spec fn overlay_of(ds: Seq<Document>, root: Seq<char>) -> Map<Seq<char>, Seq<char>>
    decreases ds.len(),
{
    if ds.len() == 0 {
        Map::empty()
    } else {
        let m = overlay_of(ds.drop_last(), root);
        let d = ds.last();
        match uri_path(d.uri@) {
            None => m,
            Some(p) => {
                let m1 = m.insert(p, d.text@);
                let m2 = match path_strip_prefix_of(p, root) {
                    Some(r) => m1.insert(r, d.text@),
                    None => m1,
                };
                match path_file_name_of(p) {
                    Some(n) => m2.insert(n, d.text@),
                    None => m2,
                }
            },
        }
    }
}

/// The open documents of an editor session, by URI.
#[derive(Debug)]
pub struct DocumentStore {
    documents: Vec<Document>,
    pub root: String,
}

impl View for DocumentStore {
    type V = Map<Seq<char>, Document>;

    closed spec fn view(&self) -> Map<Seq<char>, Document> {
        docs_map(self.documents@)
    }
}

impl DocumentStore {
    /// The workspace root the store was opened for.
    pub closed spec fn root_view(&self) -> String {
        self.root
    }

    /// The open documents in URI order.
    pub closed spec fn ordered(&self) -> Seq<Document> {
        self.documents@
    }

    /// The ordered documents are the store's documents, each URI once and
    /// in code-point order.
    pub proof fn lemma_ordered(&self)
        requires
            self.wf(),
        ensures
            strictly_sorted(doc_uris(self.ordered())),
            docs_map(self.ordered()) == self@,
    {
    }

    /// Documents are held in URI order, each URI once.
    pub closed spec fn wf(&self) -> bool {
        strictly_sorted(doc_uris(self.documents@))
    }

    /// An empty store.
    pub fn new(root: &str) -> (s: DocumentStore)
        ensures
            s.wf(),
            s@ == Map::<Seq<char>, Document>::empty(),
            s.root_view()@ == root@,
    {
        DocumentStore { documents: Vec::new(), root: crate::text::owned(root) }
    }

    /// Where a URI stands: the index of its document (`true`), or the index
    /// to insert it at (`false`).
    fn slot(&self, uri: &str) -> (r: (usize, bool))
        requires
            self.wf(),
        ensures
            r.0 <= self.documents@.len(),
            r.1 ==> r.0 < self.documents@.len() && self.documents@[r.0 as int].uri@ == uri@,
            !r.1 ==> forall|k: int|
                0 <= k < r.0 ==> seq_le(self.documents@[k].uri@, uri@)
                    && self.documents@[k].uri@ != uri@,
            !r.1 && r.0 < self.documents@.len() ==> seq_le(
                uri@,
                self.documents@[r.0 as int].uri@,
            ) && self.documents@[r.0 as int].uri@ != uri@,
    {
        let cu = chars_of(uri);
        let mut j: usize = 0;
        while j < self.documents.len()
            invariant
                j <= self.documents@.len(),
                cu@ == uri@,
                forall|k: int|
                    0 <= k < j ==> seq_le(self.documents@[k].uri@, uri@)
                        && self.documents@[k].uri@ != uri@,
            decreases self.documents@.len() - j,
        {
            if str_eq(self.documents[j].uri.as_str(), uri) {
                return (j, true);
            }
            let cd = chars_of(self.documents[j].uri.as_str());
            if str_le(cu.as_slice(), cd.as_slice()) {
                return (j, false);
            }
            proof {
                lemma_seq_le_total(self.documents@[j as int].uri@, uri@);
            }
            j = j + 1;
        }
        (j, false)
    }

    /// Opens a document, replacing any open document with its URI.
    pub fn open(&mut self, document: Document)
        requires
            old(self).wf(),
        ensures
            final(self).wf(),
            final(self)@ == old(self)@.insert(document.uri@, document),
            final(self).root_view() == old(self).root_view(),
    {
        let ghost before = self.documents@;
        let (j, found) = self.slot(document.uri.as_str());
        let ghost d = document;
        if found {
            self.documents.set(j, document);
            proof {
                lemma_docs_update(before, j as int, d);
            }
        } else {
            self.documents.insert(j, document);
            proof {
                lemma_docs_insert(before, j as int, d);
            }
        }
    }

    /// The open document with a URI.
    pub fn document(&self, uri: &str) -> (r: Option<&Document>)
        requires
            self.wf(),
        ensures
            match r {
                Some(d) => self@.contains_key(uri@) && self@[uri@] == *d,
                None => !self@.contains_key(uri@),
            },
    {
        proof {
            lemma_docs_map(self.documents@);
        }
        let (j, found) = self.slot(uri);
        if found {
            assert(doc_uris(self.documents@)[j as int] == self.documents@[j as int].uri@);
            assert(docs_map(self.documents@)[self.documents@[j as int].uri@]
                == self.documents@[j as int]);
            Some(&self.documents[j])
        } else {
            proof {
                lemma_docs_absent(self.documents@, j as int, uri@);
            }
            None
        }
    }

    /// Applies a client change: only a version newer than the open
    /// document's replaces its text; an unknown URI, an equal or an older
    /// version leaves the store unchanged. Returns whether it applied.
    pub fn change(&mut self, uri: &str, new_text: &str, version: i32) -> (applied: bool)
        requires
            old(self).wf(),
        ensures
            final(self).wf(),
            final(self).root_view() == old(self).root_view(),
            applied == (old(self)@.contains_key(uri@) && version > old(self)@[uri@].version),
            !applied ==> final(self)@ == old(self)@,
            applied ==> {
                &&& final(self)@.dom() == old(self)@.dom()
                &&& forall|k: Seq<char>|
                    #[trigger] final(self)@.contains_key(k) && k != uri@ ==> final(self)@[k]
                        == old(self)@[k]
                &&& final(self)@[uri@].uri == old(self)@[uri@].uri
                &&& final(self)@[uri@].root == old(self)@[uri@].root
                &&& final(self)@[uri@].text@ == new_text@
                &&& final(self)@[uri@].version == version
            },
    {
        let ghost before = self.documents@;
        proof {
            lemma_docs_map(before);
        }
        let (j, found) = self.slot(uri);
        if !found {
            proof {
                lemma_docs_absent(before, j as int, uri@);
            }
            return false;
        }
        assert(doc_uris(before)[j as int] == before[j as int].uri@);
        assert(docs_map(before)[before[j as int].uri@] == before[j as int]);
        assert(docs_map(before).contains_key(uri@));
        if version <= self.documents[j].version {
            return false;
        }
        let updated = Document {
            uri: self.documents[j].uri.clone(),
            text: crate::text::owned(new_text),
            version,
            root: self.documents[j].root.clone(),
        };
        assert(updated.uri@ == uri@);
        self.open(updated);
        assert(self@.dom() =~= docs_map(before).dom());
        true
    }

    /// Closes a document; closing an unknown URI changes nothing.
    pub fn close(&mut self, uri: &str)
        requires
            old(self).wf(),
        ensures
            final(self).wf(),
            final(self)@ == old(self)@.remove(uri@),
            final(self).root_view() == old(self).root_view(),
    {
        let ghost before = self.documents@;
        proof {
            lemma_docs_map(before);
        }
        let (j, found) = self.slot(uri);
        if found {
            self.documents.remove(j);
            proof {
                lemma_docs_remove(before, j as int);
            }
        } else {
            proof {
                lemma_docs_absent(before, j as int, uri@);
                assert(docs_map(before) =~= docs_map(before).remove(uri@));
            }
        }
    }

    /// The URI of the first open document, in URI order, whose URI names
    /// `path`.
    pub fn uri_for_path(&self, path: &str) -> (r: Option<String>)
        requires
            self.wf(),
        ensures
            match r {
                Some(u) => exists|i: int|
                    0 <= i < self.ordered().len() && #[trigger] self.ordered()[i].uri == u
                        && names_path(self.ordered()[i], path@) && forall|j: int|
                        0 <= j < i ==> !names_path(self.ordered()[j], path@),
                None => forall|i: int|
                    0 <= i < self.ordered().len() ==> !names_path(
                        #[trigger] self.ordered()[i],
                        path@,
                    ),
            },
    {
        let mut i: usize = 0;
        while i < self.documents.len()
            invariant
                i <= self.documents@.len(),
                forall|j: int| 0 <= j < i ==> !names_path(self.documents@[j], path@),
            decreases self.documents@.len() - i,
        {
            let d = &self.documents[i];
            if let Some(p) = uri_to_path(d.uri.as_str()) {
                if paths_equal(p.as_str(), path) {
                    let u = d.uri.clone();
                    assert(self.ordered()[i as int].uri == u);
                    return Some(u);
                }
            }
            i = i + 1;
        }
        None
    }

    /// The text of the first open document, in URI order, whose URI names
    /// `path`; nothing when no open document does (a caller then reads the
    /// file from disk).
    pub fn open_text_for_path(&self, path: &str) -> (r: Option<String>)
        requires
            self.wf(),
        ensures
            match r {
                Some(t) => exists|i: int|
                    0 <= i < self.ordered().len() && #[trigger] self.ordered()[i].text@ == t@
                        && names_path(self.ordered()[i], path@) && forall|j: int|
                        0 <= j < i ==> !names_path(self.ordered()[j], path@),
                None => forall|i: int|
                    0 <= i < self.ordered().len() ==> !names_path(
                        #[trigger] self.ordered()[i],
                        path@,
                    ),
            },
    {
        let mut i: usize = 0;
        while i < self.documents.len()
            invariant
                i <= self.documents@.len(),
                forall|j: int| 0 <= j < i ==> !names_path(self.documents@[j], path@),
            decreases self.documents@.len() - i,
        {
            let d = &self.documents[i];
            if let Some(p) = uri_to_path(d.uri.as_str()) {
                if paths_equal(p.as_str(), path) {
                    let t = copy_string(&d.text);
                    assert(self.ordered()[i as int].text@ == t@);
                    return Some(t);
                }
            }
            i = i + 1;
        }
        None
    }

    /// The texts of the open documents keyed as the compiler looks sources
    /// up: by local path, by path relative to `root`, and by file name.
    pub fn overlay(&self, root: &str) -> (r: SourceTexts)
        requires
            self.wf(),
        ensures
            r.wf(),
            r@ == overlay_of(self.ordered(), root@),
    {
        let mut out = SourceTexts::new();
        let mut i: usize = 0;
        while i < self.documents.len()
            invariant
                i <= self.documents@.len(),
                out.wf(),
                out@ == overlay_of(self.documents@.take(i as int), root@),
            decreases self.documents@.len() - i,
        {
            let d = &self.documents[i];
            proof {
                assert(self.documents@.take(i + 1).drop_last() =~= self.documents@.take(i as int));
                assert(self.documents@.take(i + 1).last() == *d);
            }
            if let Some(p) = uri_to_path(d.uri.as_str()) {
                out.insert(p.clone(), d.text.clone());
                if let Some(rel) = crate::paths::strip_prefix(p.as_str(), root) {
                    out.insert(rel, d.text.clone());
                }
                if let Some(name) = crate::paths::file_name(p.as_str()) {
                    out.insert(name, d.text.clone());
                }
            }
            i = i + 1;
        }
        assert(self.documents@.take(i as int) =~= self.documents@);
        out
    }

    /// The URIs of the open documents, in code-point order.
    pub fn uris(&self) -> (r: Vec<String>)
        requires
            self.wf(),
        ensures
            strictly_sorted(crate::edit::strs(r@)),
            forall|k: Seq<char>| #[trigger]
                crate::edit::strs(r@).contains(k) <==> self@.contains_key(k),
    {
        proof {
            lemma_docs_map(self.documents@);
        }
        let mut r: Vec<String> = Vec::new();
        let mut i: usize = 0;
        while i < self.documents.len()
            invariant
                i <= self.documents@.len(),
                crate::edit::strs(r@) == doc_uris(self.documents@).take(i as int),
            decreases self.documents@.len() - i,
        {
            let ghost prev = r@;
            r.push(self.documents[i].uri.clone());
            assert(crate::edit::strs(r@) =~= crate::edit::strs(prev).push(
                self.documents@[i as int].uri@,
            ));
            assert(crate::edit::strs(r@) =~= doc_uris(self.documents@).take(i + 1));
            i = i + 1;
        }
        assert(doc_uris(self.documents@).take(i as int) =~= doc_uris(self.documents@));
        r
    }
}

} // verus!
