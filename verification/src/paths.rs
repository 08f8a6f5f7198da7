//! Path helpers over plain strings (Unix path conventions).

use vstd::prelude::*;

use crate::text::{chars_of, push_all, string_from_chars};

verus! {

/// Whether a path is absolute: on Unix, whether it starts at the root `/`.
pub open spec fn is_absolute_path(p: Seq<char>) -> bool {
    p.len() > 0 && p[0] == '/'
}

/// `base` joined with `rel` as `PathBuf::push` does on Unix: an absolute
/// `rel` replaces `base`; otherwise a `/` separates them unless `base` is
/// empty or already ends with one.
pub open spec fn join_path(base: Seq<char>, rel: Seq<char>) -> Seq<char> {
    if is_absolute_path(rel) {
        rel
    } else if base.len() == 0 || base.last() == '/' {
        base + rel
    } else {
        base + seq!['/'] + rel
    }
}

pub fn is_absolute(p: &str) -> (r: bool)
    ensures
        r == is_absolute_path(p@),
{
    let c = chars_of(p);
    c.len() > 0 && c[0] == '/'
}

pub fn join(base: &str, rel: &str) -> (r: String)
    ensures
        r@ == join_path(base@, rel@),
{
    let b = chars_of(base);
    let r = chars_of(rel);
    if r.len() > 0 && r[0] == '/' {
        return string_from_chars(r.as_slice());
    }
    let mut out = b.clone();
    if b.len() > 0 && b[b.len() - 1] != '/' {
        out.push('/');
    }
    push_all(&mut out, r.as_slice());
    proof {
        if b@.len() > 0 && b@.last() != '/' {
            assert(out@ =~= b@ + seq!['/'] + r@);
        } else {
            assert(out@ =~= b@ + r@);
        }
    }
    string_from_chars(out.as_slice())
}

/// The final component of a path, as `Path::file_name` computes it.
pub uninterp spec fn path_file_name_of(p: Seq<char>) -> Option<Seq<char>>;

/// The final component of a path (`std::path::Path::file_name`, converted to
/// UTF-8 text). What it is on given text is not stated.
#[verifier::external_body]
pub fn file_name(p: &str) -> (r: Option<String>)
    ensures
        r matches Some(n) ==> path_file_name_of(p@) == Some(n@),
        r is None ==> path_file_name_of(p@) is None,
{
    std::path::Path::new(p).file_name().map(|n| n.to_string_lossy().into_owned())
}

/// `p` relative to `root`, as `Path::strip_prefix` computes it.
pub uninterp spec fn path_strip_prefix_of(p: Seq<char>, root: Seq<char>) -> Option<Seq<char>>;

/// `p` with the leading components that equal `root` removed
/// (`std::path::Path::strip_prefix`, converted to UTF-8 text); `None` when
/// `root` is not a component prefix of `p`. What it is on given text is not
/// stated.
#[verifier::external_body]
pub fn strip_prefix(p: &str, root: &str) -> (r: Option<String>)
    ensures
        r matches Some(rel) ==> path_strip_prefix_of(p@, root@) == Some(rel@),
        r is None ==> path_strip_prefix_of(p@, root@) is None,
{
    std::path::Path::new(p).strip_prefix(root).ok().map(|r| r.to_string_lossy().into_owned())
}

/// The parent of a path, as `Path::parent` computes it.
pub uninterp spec fn path_parent_of(p: Seq<char>) -> Option<Seq<char>>;

/// The path without its final component (`std::path::Path::parent`, converted
/// to UTF-8 text); `None` for a root or an empty path. What it is on given text
/// is not stated.
#[verifier::external_body]
pub fn parent(p: &str) -> (r: Option<String>)
    ensures
        r matches Some(q) ==> path_parent_of(p@) == Some(q@),
        r is None ==> path_parent_of(p@) is None,
{
    std::path::Path::new(p).parent().map(|q| q.to_string_lossy().into_owned())
}

/// The index of the last `'.'` in `n` before index `i`, or -1.
pub open spec fn last_dot_before(n: Seq<char>, i: int) -> int
    decreases i,
{
    if i <= 0 {
        -1
    } else if n[i - 1] == '.' {
        i - 1
    } else {
        last_dot_before(n, i - 1)
    }
}

/// The extension of a file name: the text after its last `'.'`, unless the
/// name has no `'.'` or its only `'.'` is its first character.
pub open spec fn name_extension(n: Seq<char>) -> Option<Seq<char>> {
    let d = last_dot_before(n, n.len() as int);
    if d <= 0 {
        None
    } else {
        Some(n.skip(d + 1))
    }
}

/// The extension of a path (`Path::extension`): that of its final component.
pub open spec fn path_extension(p: Seq<char>) -> Option<Seq<char>> {
    match path_file_name_of(p) {
        None => None,
        Some(n) => name_extension(n),
    }
}

/// The extension of a path, without the leading dot.
pub fn extension(p: &str) -> (r: Option<String>)
    ensures
        match path_extension(p@) {
            Some(e) => r matches Some(x) && x@ == e,
            None => r is None,
        },
{
    let name = match file_name(p) {
        Some(n) => n,
        None => {
            return None;
        },
    };
    let c = chars_of(name.as_str());
    let mut i = c.len();
    while i > 0 && c[i - 1] != '.'
        invariant
            i <= c@.len(),
            last_dot_before(c@, c@.len() as int) == last_dot_before(c@, i as int),
        decreases i,
    {
        i = i - 1;
    }
    if i <= 1 {
        return None;
    }
    let mut out: Vec<char> = Vec::new();
    let mut k = i;
    while k < c.len()
        invariant
            i <= k <= c@.len(),
            out@ == c@.subrange(i as int, k as int),
        decreases c@.len() - k,
    {
        assert(c@.subrange(i as int, k + 1) =~= c@.subrange(i as int, k as int).push(c@[k as int]));
        out.push(c[k]);
        k = k + 1;
    }
    assert(out@ =~= c@.skip(i as int));
    Some(string_from_chars(out.as_slice()))
}


/// A path as shown to users: relative to the working directory `cwd` when
/// it lies strictly below it (`Path::strip_prefix` leaves something), else
/// as given.
pub open spec fn display_of(p: Seq<char>, cwd: Option<Seq<char>>) -> Seq<char> {
    match cwd {
        Some(c) => match path_strip_prefix_of(p, c) {
            Some(rel) => if rel.len() > 0 {
                rel
            } else {
                p
            },
            None => p,
        },
        None => p,
    }
}

/// A path as shown to users (see [`display_of`]); `cwd` is the working
/// directory, when it is known.
pub fn display_relative(p: &str, cwd: Option<&str>) -> (r: String)
    ensures
        r@ == display_of(p@, match cwd {
            Some(c) => Some(c@),
            None => None,
        }),
{
    if let Some(c) = cwd {
        if let Some(rel) = strip_prefix(p, c) {
            if rel.as_str().unicode_len() > 0 {
                return rel;
            }
        }
    }
    crate::text::owned(p)
}

/// The files that mark a project directory `dir`: the Opy entry candidates
/// (`main.opy`, then `src/main.opy`) and the DS manifest `ds.toml`.
pub fn project_markers(dir: &str) -> (r: (Vec<String>, String))
    ensures
        r.0@.len() == 2,
        r.0@[0]@ == join_path(dir@, "main.opy"@),
        r.0@[1]@ == join_path(dir@, "src/main.opy"@),
        r.1@ == join_path(dir@, "ds.toml"@),
{
    let mut opy: Vec<String> = Vec::new();
    opy.push(join(dir, "main.opy"));
    opy.push(join(dir, "src/main.opy"));
    (opy, join(dir, "ds.toml"))
}

} // verus!
