//! Character-level text helpers shared by the edit engine and the document
//! store: line splitting, line joining, decimal rendering and lexicographic
//! string order.

use vstd::prelude::*;

verus! {

broadcast use vstd::string::group_string_axioms;

/// The pieces of `s` between `'\n'` characters (`str::split('\n')`): there is
/// always at least one piece, and a trailing `'\n'` yields a final empty piece.
pub open spec fn split_lines(s: Seq<char>) -> Seq<Seq<char>>
    decreases s.len(),
{
    if s.len() == 0 {
        seq![Seq::<char>::empty()]
    } else {
        let prev = split_lines(s.drop_last());
        if s.last() == '\n' {
            prev.push(Seq::<char>::empty())
        } else {
            prev.update(prev.len() - 1, prev.last().push(s.last()))
        }
    }
}

/// The pieces joined with `'\n'` between consecutive pieces.
pub open spec fn join_lines(ls: Seq<Seq<char>>) -> Seq<char>
    decreases ls.len(),
{
    if ls.len() == 0 {
        Seq::<char>::empty()
    } else if ls.len() == 1 {
        ls[0]
    } else {
        join_lines(ls.drop_last()) + seq!['\n'] + ls.last()
    }
}

/// A piece with one trailing carriage return removed, if it has one.
pub open spec fn strip_cr(l: Seq<char>) -> Seq<char> {
    if l.len() > 0 && l.last() == '\r' {
        l.drop_last()
    } else {
        l
    }
}

/// The lines of `s` as `str::lines` yields them: pieces between `'\n'`, with
/// the `'\r'` of a `"\r\n"` terminator removed, and no final empty line when
/// the text ends with a line terminator (or is empty).
pub open spec fn std_lines(s: Seq<char>) -> Seq<Seq<char>> {
    let l = split_lines(s);
    let n = if l.last().len() == 0 {
        l.len() - 1
    } else {
        l.len() as int
    };
    Seq::new(n as nat, |i: int| if i < l.len() - 1 { strip_cr(l[i]) } else { l[i] })
}

/// The character views of a vector of character vectors.
pub open spec fn views(v: Seq<Vec<char>>) -> Seq<Seq<char>> {
    Seq::new(v.len(), |i: int| v[i]@)
}

/// `split_lines` never yields zero pieces.
pub proof fn lemma_split_lines_nonempty(s: Seq<char>)
    ensures
        split_lines(s).len() >= 1,
    decreases s.len(),
{
    if s.len() > 0 {
        lemma_split_lines_nonempty(s.drop_last());
    }
}

/// The number of pieces is one more than the number of `'\n'` characters.
pub proof fn lemma_split_lines_extend(s: Seq<char>, c: char)
    ensures
        split_lines(s.push(c)) == (if c == '\n' {
            split_lines(s).push(Seq::<char>::empty())
        } else {
            split_lines(s).update(
                split_lines(s).len() - 1,
                split_lines(s).last().push(c),
            )
        }),
{
    assert(s.push(c).drop_last() =~= s);
}

/// Joining one more piece appends a separator and the piece.
pub proof fn lemma_join_push(ls: Seq<Seq<char>>, l: Seq<char>)
    requires
        ls.len() >= 1,
    ensures
        join_lines(ls.push(l)) == join_lines(ls) + seq!['\n'] + l,
{
    assert(ls.push(l).drop_last() =~= ls);
}

/// Splitting then joining gives back the text.
pub proof fn lemma_join_split(s: Seq<char>)
    ensures
        join_lines(split_lines(s)) == s,
    decreases s.len(),
{
    if s.len() == 0 {
        assert(join_lines(split_lines(s)) =~= s);
    } else {
        let p = s.drop_last();
        lemma_join_split(p);
        lemma_split_lines_nonempty(p);
        let prev = split_lines(p);
        if s.last() == '\n' {
            lemma_join_push(prev, Seq::<char>::empty());
            assert(s =~= p + seq!['\n'] + Seq::<char>::empty());
        } else {
            lemma_join_update_last(prev, s.last());
            assert(s =~= p.push(s.last()));
        }
    }
}

/// No `'\n'` in `s`.
pub open spec fn no_line_break(s: Seq<char>) -> bool {
    forall|j: int| 0 <= j < s.len() ==> #[trigger] s[j] != '\n'
}

/// A text without `'\n'` is one piece.
pub proof fn lemma_split_single_line(s: Seq<char>)
    requires
        no_line_break(s),
    ensures
        split_lines(s) == seq![s],
    decreases s.len(),
{
    if s.len() == 0 {
        assert(s =~= Seq::<char>::empty());
    } else {
        let p = s.drop_last();
        assert(no_line_break(p)) by {
            assert forall|j: int| 0 <= j < p.len() implies #[trigger] p[j] != '\n' by {
                assert(p[j] == s[j]);
            }
        }
        lemma_split_single_line(p);
        assert(s.last() != '\n') by {
            assert(s[s.len() - 1] != '\n');
        }
        assert(p.push(s.last()) =~= s);
        assert(seq![p].update(0, p.push(s.last())) =~= seq![s]);
    }
}

/// A `'\n'` followed by a text without one adds exactly that text as a new
/// last piece.
pub proof fn lemma_split_after_break(s: Seq<char>, l: Seq<char>)
    requires
        no_line_break(l),
    ensures
        split_lines(s + seq!['\n'] + l) == split_lines(s).push(l),
    decreases l.len(),
{
    let t = s + seq!['\n'] + l;
    if l.len() == 0 {
        assert(t.drop_last() =~= s);
        assert(t.last() == '\n');
        assert(Seq::<char>::empty() =~= l);
    } else {
        let p = l.drop_last();
        assert(no_line_break(p)) by {
            assert forall|j: int| 0 <= j < p.len() implies #[trigger] p[j] != '\n' by {
                assert(p[j] == l[j]);
            }
        }
        lemma_split_after_break(s, p);
        assert(t.drop_last() =~= s + seq!['\n'] + p);
        assert(t.last() == l[l.len() - 1]);
        assert(l[l.len() - 1] != '\n');
        let prev = split_lines(s).push(p);
        assert(p.push(l.last()) =~= l);
        assert(prev.update(prev.len() - 1, prev.last().push(t.last())) =~= split_lines(s).push(l));
    }
}

/// Joining pieces without `'\n'` and splitting again gives the pieces back.
pub proof fn lemma_split_join(ls: Seq<Seq<char>>)
    requires
        ls.len() >= 1,
        forall|i: int| 0 <= i < ls.len() ==> no_line_break(#[trigger] ls[i]),
    ensures
        split_lines(join_lines(ls)) == ls,
    decreases ls.len(),
{
    if ls.len() == 1 {
        lemma_split_single_line(ls[0]);
        assert(seq![ls[0]] =~= ls);
    } else {
        let p = ls.drop_last();
        assert forall|i: int| 0 <= i < p.len() implies no_line_break(#[trigger] p[i]) by {
            assert(p[i] == ls[i]);
        }
        lemma_split_join(p);
        assert(no_line_break(ls[ls.len() - 1]));
        lemma_split_after_break(join_lines(p), ls.last());
        assert(p.push(ls.last()) =~= ls);
    }
}

/// No piece of `split_lines(s)` holds a `'\n'`.
pub proof fn lemma_split_lines_unbroken(s: Seq<char>)
    ensures
        forall|i: int| 0 <= i < split_lines(s).len() ==> no_line_break(#[trigger] split_lines(s)[i]),
    decreases s.len(),
{
    if s.len() > 0 {
        let p = s.drop_last();
        lemma_split_lines_unbroken(p);
        lemma_split_lines_nonempty(p);
        let prev = split_lines(p);
        assert forall|i: int| 0 <= i < split_lines(s).len() implies no_line_break(#[trigger] split_lines(s)[i]) by {
            if s.last() == '\n' {
                if i < prev.len() {
                    assert(split_lines(s)[i] == prev[i]);
                } else {
                    assert(split_lines(s)[i].len() == 0);
                }
            } else if i < prev.len() - 1 {
                assert(split_lines(s)[i] == prev[i]);
            } else {
                let l = prev.last().push(s.last());
                assert(split_lines(s)[i] == l);
                assert(no_line_break(prev[prev.len() - 1]));
                assert forall|j: int| 0 <= j < l.len() implies #[trigger] l[j] != '\n' by {
                    if j < l.len() - 1 {
                        assert(l[j] == prev.last()[j]);
                    }
                }
            }
        }
    }
}

/// Extending the last piece extends the joined text by the same character.
pub proof fn lemma_join_update_last(ls: Seq<Seq<char>>, c: char)
    requires
        ls.len() >= 1,
    ensures
        join_lines(ls.update(ls.len() - 1, ls.last().push(c))) == join_lines(ls).push(c),
{
    let u = ls.update(ls.len() - 1, ls.last().push(c));
    if ls.len() == 1 {
        assert(join_lines(u) =~= join_lines(ls).push(c));
    } else {
        assert(u.drop_last() =~= ls.drop_last());
        assert(join_lines(u) =~= join_lines(ls).push(c));
    }
}

/// The characters of a string, in order.
pub fn chars_of(s: &str) -> (v: Vec<char>)
    ensures
        v@ == s@,
{
    let mut v: Vec<char> = Vec::new();
    for c in iter: s.chars()
        invariant
            v@ == iter.seq().take(iter.index() as int),
    {
        v.push(c);
    }
    v
}

/// Builds a string from a character sequence (`String: FromIterator<char>`).
#[verifier::external_body]
pub(crate) fn string_from_chars(v: &[char]) -> (s: String)
    ensures
        s@ == v@,
{
    v.iter().collect()
}

/// Appends every character of `piece` to `out`.
pub fn push_all(out: &mut Vec<char>, piece: &[char])
    ensures
        final(out)@ == old(out)@ + piece@,
{
    let mut j: usize = 0;
    while j < piece.len()
        invariant
            j <= piece@.len(),
            out@ == old(out)@ + piece@.take(j as int),
        decreases piece@.len() - j,
    {
        assert(piece@.take(j + 1) =~= piece@.take(j as int).push(piece@[j as int]));
        out.push(piece[j]);
        j = j + 1;
    }
    assert(piece@.take(j as int) =~= piece@);
}

/// Splits a character sequence into its `'\n'`-separated pieces.
pub fn split_lines_exec(s: &[char]) -> (lines: Vec<Vec<char>>)
    ensures
        views(lines@) == split_lines(s@),
        lines@.len() >= 1,
{
    let mut lines: Vec<Vec<char>> = Vec::new();
    let mut cur: Vec<char> = Vec::new();
    let mut i: usize = 0;
    assert(s@.take(0) =~= Seq::<char>::empty());
    assert(views(lines@).push(cur@) =~= split_lines(s@.take(0)));
    while i < s.len()
        invariant
            i <= s@.len(),
            views(lines@).push(cur@) == split_lines(s@.take(i as int)),
        decreases s@.len() - i,
    {
        let c = s[i];
        proof {
            assert(s@.take(i + 1) =~= s@.take(i as int).push(c));
            lemma_split_lines_extend(s@.take(i as int), c);
        }
        if c == '\n' {
            let done = cur;
            lines.push(done);
            cur = Vec::new();
            assert(views(lines@).push(cur@) =~= split_lines(s@.take(i + 1)));
        } else {
            cur.push(c);
            assert(views(lines@).push(cur@) =~= split_lines(s@.take(i + 1)));
        }
        i = i + 1;
    }
    assert(s@.take(i as int) =~= s@);
    lines.push(cur);
    assert(views(lines@) =~= split_lines(s@));
    lines
}

/// Joins pieces with `'\n'` separators.
pub fn join_lines_exec(ls: &Vec<Vec<char>>) -> (out: Vec<char>)
    ensures
        out@ == join_lines(views(ls@)),
{
    let mut out: Vec<char> = Vec::new();
    let mut k: usize = 0;
    while k < ls.len()
        invariant
            k <= ls@.len(),
            out@ == join_lines(views(ls@).take(k as int)),
        decreases ls@.len() - k,
    {
        let ghost before = views(ls@).take(k as int);
        proof {
            assert(views(ls@).take(k + 1) =~= before.push(ls@[k as int]@));
        }
        if k > 0 {
            out.push('\n');
            proof {
                lemma_join_push(before, ls@[k as int]@);
            }
        } else {
            assert(out@ + ls@[k as int]@ =~= join_lines(views(ls@).take(k + 1)));
        }
        push_all(&mut out, ls[k].as_slice());
        k = k + 1;
    }
    assert(views(ls@).take(k as int) =~= views(ls@));
    out
}

/// The lines of a character sequence as `str::lines` yields them.
pub fn std_lines_exec(s: &[char]) -> (lines: Vec<Vec<char>>)
    ensures
        views(lines@) == std_lines(s@),
{
    let pieces = split_lines_exec(s);
    let n = if pieces[pieces.len() - 1].len() == 0 {
        pieces.len() - 1
    } else {
        pieces.len()
    };
    let mut lines: Vec<Vec<char>> = Vec::new();
    let mut i: usize = 0;
    while i < n
        invariant
            n <= pieces@.len(),
            i <= n,
            views(pieces@) == split_lines(s@),
            pieces@.len() >= 1,
            n == (if pieces@.last()@.len() == 0 {
                pieces@.len() - 1
            } else {
                pieces@.len() as int
            }),
            views(lines@) == std_lines(s@).take(i as int),
        decreases n - i,
    {
        let p = &pieces[i];
        let line: Vec<char> = if i + 1 < pieces.len() && p.len() > 0 && p[p.len() - 1] == '\r' {
            let mut t: Vec<char> = Vec::new();
            let mut j: usize = 0;
            while j < p.len() - 1
                invariant
                    p@.len() > 0,
                    j + 1 <= p@.len(),
                    t@ == p@.take(j as int),
                decreases p@.len() - j,
            {
                assert(p@.take(j + 1) =~= p@.take(j as int).push(p@[j as int]));
                t.push(p[j]);
                j = j + 1;
            }
            assert(t@ =~= strip_cr(p@));
            t
        } else {
            p.clone()
        };
        proof {
            assert(views(lines@).push(line@) =~= std_lines(s@).take(i + 1));
        }
        lines.push(line);
        i = i + 1;
    }
    assert(views(lines@) =~= std_lines(s@));
    lines
}

/// The decimal digit character for a value below ten.
pub open spec fn digit_char(d: nat) -> char {
    if d == 0 {
        '0'
    } else if d == 1 {
        '1'
    } else if d == 2 {
        '2'
    } else if d == 3 {
        '3'
    } else if d == 4 {
        '4'
    } else if d == 5 {
        '5'
    } else if d == 6 {
        '6'
    } else if d == 7 {
        '7'
    } else if d == 8 {
        '8'
    } else {
        '9'
    }
}

/// The decimal rendering of a natural number, without leading zeros.
pub open spec fn decimal(n: nat) -> Seq<char>
    decreases n,
{
    if n < 10 {
        seq![digit_char(n)]
    } else {
        decimal(n / 10).push(digit_char(n % 10))
    }
}

fn digit_exec(d: u64) -> (c: char)
    requires
        d < 10,
    ensures
        c == digit_char(d as nat),
{
    if d == 0 {
        '0'
    } else if d == 1 {
        '1'
    } else if d == 2 {
        '2'
    } else if d == 3 {
        '3'
    } else if d == 4 {
        '4'
    } else if d == 5 {
        '5'
    } else if d == 6 {
        '6'
    } else if d == 7 {
        '7'
    } else if d == 8 {
        '8'
    } else {
        '9'
    }
}

fn decimal_chars(n: u64) -> (v: Vec<char>)
    ensures
        v@ == decimal(n as nat),
    decreases n,
{
    if n < 10 {
        let mut v: Vec<char> = Vec::new();
        v.push(digit_exec(n));
        assert(v@ =~= decimal(n as nat));
        v
    } else {
        let mut v = decimal_chars(n / 10);
        v.push(digit_exec(n % 10));
        v
    }
}

/// The decimal rendering of a number (as `Display` for unsigned integers
/// writes it).
pub fn decimal_string(n: u64) -> (s: String)
    ensures
        s@ == decimal(n as nat),
{
    let v = decimal_chars(n);
    string_from_chars(v.as_slice())
}

/// Lexicographic order on character sequences by code point, the order
/// `Ord for str` uses (byte order of UTF-8 agrees with code point order).
pub open spec fn seq_le(a: Seq<char>, b: Seq<char>) -> bool
    decreases a.len(),
{
    if a.len() == 0 {
        true
    } else if b.len() == 0 {
        false
    } else if a[0] != b[0] {
        (a[0] as int) < (b[0] as int)
    } else {
        seq_le(a.drop_first(), b.drop_first())
    }
}

/// `seq_le` is a total order.
pub proof fn lemma_seq_le_total(a: Seq<char>, b: Seq<char>)
    ensures
        seq_le(a, b) || seq_le(b, a),
    decreases a.len(),
{
    if a.len() > 0 && b.len() > 0 {
        if a[0] == b[0] {
            lemma_seq_le_total(a.drop_first(), b.drop_first());
        } else {
            assert((a[0] as int) != (b[0] as int));
            assert((a[0] as int) < (b[0] as int) || (b[0] as int) < (a[0] as int));
        }
    }
}

/// `seq_le` is reflexive.
pub proof fn lemma_seq_le_refl(a: Seq<char>)
    ensures
        seq_le(a, a),
    decreases a.len(),
{
    if a.len() > 0 {
        lemma_seq_le_refl(a.drop_first());
    }
}

/// `seq_le` is antisymmetric.
pub proof fn lemma_seq_le_antisym(a: Seq<char>, b: Seq<char>)
    requires
        seq_le(a, b),
        seq_le(b, a),
    ensures
        a == b,
    decreases a.len(),
{
    if a.len() > 0 && b.len() > 0 {
        if a[0] == b[0] {
            lemma_seq_le_antisym(a.drop_first(), b.drop_first());
            assert(a =~= seq![a[0]] + a.drop_first());
            assert(b =~= seq![b[0]] + b.drop_first());
        } else {
            assert((a[0] as int) != (b[0] as int));
        }
    } else {
        assert(a =~= b);
    }
}

/// `seq_le` is transitive.
pub proof fn lemma_seq_le_trans(a: Seq<char>, b: Seq<char>, c: Seq<char>)
    requires
        seq_le(a, b),
        seq_le(b, c),
    ensures
        seq_le(a, c),
    decreases a.len(),
{
    if a.len() > 0 && b.len() > 0 && c.len() > 0 {
        if a[0] == b[0] && b[0] == c[0] {
            lemma_seq_le_trans(a.drop_first(), b.drop_first(), c.drop_first());
        }
    }
}

/// Whether `a` orders before or equal to `b` by code point.
pub fn str_le(a: &[char], b: &[char]) -> (r: bool)
    ensures
        r == seq_le(a@, b@),
{
    let mut i: usize = 0;
    assert(a@.skip(0) =~= a@);
    assert(b@.skip(0) =~= b@);
    while i < a.len() && i < b.len() && a[i] == b[i]
        invariant
            i <= a@.len(),
            i <= b@.len(),
            seq_le(a@, b@) == seq_le(a@.skip(i as int), b@.skip(i as int)),
        decreases a@.len() - i,
    {
        assert(a@.skip(i as int).drop_first() =~= a@.skip(i + 1));
        assert(b@.skip(i as int).drop_first() =~= b@.skip(i + 1));
        i = i + 1;
    }
    if i == a.len() {
        true
    } else if i == b.len() {
        false
    } else {
        a[i] < b[i]
    }
}

/// Whether two character sequences are equal.
pub fn chars_eq(a: &[char], b: &[char]) -> (r: bool)
    ensures
        r == (a@ == b@),
{
    if a.len() != b.len() {
        return false;
    }
    let mut i: usize = 0;
    while i < a.len()
        invariant
            a@.len() == b@.len(),
            i <= a@.len(),
            a@.take(i as int) == b@.take(i as int),
        decreases a@.len() - i,
    {
        if a[i] != b[i] {
            return false;
        }
        assert(a@.take(i + 1) =~= a@.take(i as int).push(a@[i as int]));
        assert(b@.take(i + 1) =~= b@.take(i as int).push(b@[i as int]));
        i = i + 1;
    }
    assert(a@ =~= a@.take(i as int));
    assert(b@ =~= b@.take(i as int));
    true
}

/// Whether two strings are equal, character by character.
pub fn str_eq(a: &str, b: &str) -> (r: bool)
    ensures
        r == (a@ == b@),
{
    let ca = chars_of(a);
    let cb = chars_of(b);
    chars_eq(ca.as_slice(), cb.as_slice())
}

/// Whether a character has the Unicode `White_Space` property, the property
/// `char::is_whitespace` tests.
pub open spec fn is_white_space(c: char) -> bool {
    ||| ('\u{9}' <= c && c <= '\u{d}')
    ||| c == ' '
    ||| c == '\u{85}'
    ||| c == '\u{a0}'
    ||| c == '\u{1680}'
    ||| ('\u{2000}' <= c && c <= '\u{200a}')
    ||| c == '\u{2028}'
    ||| c == '\u{2029}'
    ||| c == '\u{202f}'
    ||| c == '\u{205f}'
    ||| c == '\u{3000}'
}

/// Whether a character is white space (`char::is_whitespace`).
pub fn is_whitespace(c: char) -> (r: bool)
    ensures
        r == is_white_space(c),
{
    ('\u{9}' <= c && c <= '\u{d}') || c == ' ' || c == '\u{85}' || c == '\u{a0}' || c
        == '\u{1680}' || ('\u{2000}' <= c && c <= '\u{200a}') || c == '\u{2028}' || c
        == '\u{2029}' || c == '\u{202f}' || c == '\u{205f}' || c == '\u{3000}'
}

/// The index of the first character of `s` at or after `i` that is not white
/// space, or the length of `s`.
pub open spec fn skip_white_space(s: Seq<char>, i: int) -> int
    decreases s.len() - i,
{
    if i >= s.len() {
        s.len() as int
    } else if is_white_space(s[i]) {
        skip_white_space(s, i + 1)
    } else {
        i
    }
}

/// `s` without its leading white space (`str::trim_start`).
pub open spec fn trim_start(s: Seq<char>) -> Seq<char> {
    s.skip(skip_white_space(s, 0))
}

/// `trim_start` over character vectors.
pub fn trim_start_chars(s: &[char]) -> (r: Vec<char>)
    ensures
        r@ == trim_start(s@),
{
    let mut i: usize = 0;
    while i < s.len() && is_whitespace(s[i])
        invariant
            i <= s@.len(),
            skip_white_space(s@, 0) == skip_white_space(s@, i as int),
        decreases s@.len() - i,
    {
        i = i + 1;
    }
    let mut r: Vec<char> = Vec::new();
    let mut k = i;
    while k < s.len()
        invariant
            i <= k <= s@.len(),
            r@ == s@.subrange(i as int, k as int),
        decreases s@.len() - k,
    {
        assert(s@.subrange(i as int, k + 1) =~= s@.subrange(i as int, k as int).push(s@[k as int]));
        r.push(s[k]);
        k = k + 1;
    }
    assert(r@ =~= s@.skip(i as int));
    r
}

/// The length of `s.take(n)` without its trailing white space.
pub open spec fn trim_end_index(s: Seq<char>, n: int) -> int
    decreases n,
{
    if n <= 0 {
        0
    } else if is_white_space(s[n - 1]) {
        trim_end_index(s, n - 1)
    } else {
        n
    }
}

/// `s` without leading and trailing white space (`str::trim`).
pub open spec fn trim(s: Seq<char>) -> Seq<char> {
    let t = trim_start(s);
    t.take(trim_end_index(t, t.len() as int))
}

/// `trim` over character vectors.
pub fn trim_chars(s: &[char]) -> (r: Vec<char>)
    ensures
        r@ == trim(s@),
{
    let t = trim_start_chars(s);
    let mut n = t.len();
    while n > 0 && is_whitespace(t[n - 1])
        invariant
            n <= t@.len(),
            trim_end_index(t@, t@.len() as int) == trim_end_index(t@, n as int),
        decreases n,
    {
        n = n - 1;
    }
    let mut r: Vec<char> = Vec::new();
    let mut k: usize = 0;
    while k < n
        invariant
            k <= n <= t@.len(),
            r@ == t@.take(k as int),
        decreases n - k,
    {
        assert(t@.take(k + 1) =~= t@.take(k as int).push(t@[k as int]));
        r.push(t[k]);
        k = k + 1;
    }
    r
}

/// ASCII upper-case letters mapped to lower case, other characters kept
/// (`str::to_ascii_lowercase`).
pub open spec fn ascii_lower(s: Seq<char>) -> Seq<char> {
    s.map_values(|c: char| if 'A' <= c && c <= 'Z' { ((c as int) + 32) as char } else { c })
}

pub fn ascii_lower_chars(s: &[char]) -> (r: Vec<char>)
    ensures
        r@ == ascii_lower(s@),
{
    let mut r: Vec<char> = Vec::new();
    let mut k: usize = 0;
    while k < s.len()
        invariant
            k <= s@.len(),
            r@ == ascii_lower(s@.take(k as int)),
        decreases s@.len() - k,
    {
        let c = s[k];
        let l = if 'A' <= c && c <= 'Z' {
            ((c as u32) + 32) as u8 as char
        } else {
            c
        };
        proof {
            if 'A' <= c && c <= 'Z' {
                assert(((c as u32) + 32) as u8 as char == ((c as int) + 32) as char);
            }
        }
        r.push(l);
        assert(ascii_lower(s@.take(k + 1)) =~= ascii_lower(s@.take(k as int)).push(l));
        k = k + 1;
    }
    assert(s@.take(k as int) =~= s@);
    r
}

/// Whether a character is alphabetic or numeric, as `char::is_alphanumeric`
/// decides.
pub uninterp spec fn is_alphanumeric_char(c: char) -> bool;

/// `char::is_alphanumeric`: whether a character is alphabetic or numeric in
/// Unicode. The result is named as a function of the character; which
/// characters qualify (the Unicode tables) is not stated.
#[verifier::external_body]
pub(crate) fn is_alphanumeric(c: char) -> (r: bool)
    ensures
        r == is_alphanumeric_char(c),
{
    c.is_alphanumeric()
}

/// No piece of `split_lines(s)` is longer than `s`, and there are at most
/// `s.len() + 1` pieces.
pub proof fn lemma_split_lines_bounds(s: Seq<char>)
    ensures
        split_lines(s).len() <= s.len() + 1,
        forall|i: int| 0 <= i < split_lines(s).len() ==> #[trigger] split_lines(s)[i].len() <= s.len(),
    decreases s.len(),
{
    if s.len() > 0 {
        lemma_split_lines_bounds(s.drop_last());
        lemma_split_lines_nonempty(s.drop_last());
    }
}

/// The same bounds for `std_lines`.
pub proof fn lemma_std_lines_bounds(s: Seq<char>)
    ensures
        std_lines(s).len() <= s.len() + 1,
        forall|i: int| 0 <= i < std_lines(s).len() ==> #[trigger] std_lines(s)[i].len() <= s.len(),
{
    lemma_split_lines_bounds(s);
    lemma_split_lines_nonempty(s);
    let l = split_lines(s);
    assert forall|i: int| 0 <= i < std_lines(s).len() implies #[trigger] std_lines(s)[i].len()
        <= s.len() by {
        assert(l[i].len() <= s.len());
    }
}

/// A copy of a string with the same characters.
pub fn copy_string(s: &String) -> (r: String)
    ensures
        r@ == s@,
{
    s.clone()
}

/// An owned string with the characters of `s`.
pub fn owned(s: &str) -> (r: String)
    ensures
        r@ == s@,
{
    s.to_owned()
}

} // verus!
