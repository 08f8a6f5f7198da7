//! The `.opy` frontend integration for the driver: the include root, and the
//! decisions around the pinned OverPy adapter fallback (which file it is
//! told is the main file, and how its failure is reported).

use vstd::prelude::*;

use vstd::string::StringExecFns;

use crate::diag::{Diagnostic, Severity, Stage, plain_diagnostic};
use crate::input::ResolvedInput;
use crate::paths::{file_name, path_file_name_of};
use crate::text::{chars_of, chars_eq, owned, string_from_chars, trim, trim_chars};

verus! {

broadcast use vstd::string::group_string_axioms;

/// The environment variable that selects the adapter fallback.
pub const ADAPTER_ENV: &'static str = "WRIGHT_ADAPTER_PATH";

/// The include root for a resolved input (used by the native frontend).
pub fn include_root(input: &ResolvedInput) -> (r: &str)
    ensures
        r@ == input.root@,
{
    input.root.as_str()
}

/// The main-file name the adapter is given: the input path's file name, or
/// `main.opy` when the path has none.
pub open spec fn main_file_of(path: Seq<char>) -> Seq<char> {
    match path_file_name_of(path) {
        Some(n) => n,
        None => "main.opy"@,
    }
}

/// The main-file name the adapter is given for an input at `path`.
pub fn adapter_main_file(path: &str) -> (r: String)
    ensures
        r@ == main_file_of(path@),
{
    match file_name(path) {
        Some(n) => n,
        None => owned("main.opy"),
    }
}

/// `t` occurs in `s` at some position.
pub open spec fn has_substring(s: Seq<char>, t: Seq<char>) -> bool {
    exists|i: int| 0 <= i && i + t.len() <= s.len() && #[trigger] s.subrange(i, i + t.len()) == t
}

/// Whether `t` occurs in `s` (`str::contains` with a string pattern).
fn contains_chars(s: &[char], t: &[char]) -> (r: bool)
    ensures
        r == has_substring(s@, t@),
{
    if t.len() > s.len() {
        return false;
    }
    if t.len() == 0 {
        assert(s@.subrange(0, 0 + t@.len() as int) =~= t@);
        return true;
    }
    let n = s.len();
    let last = n - t.len();
    let mut i: usize = 0;
    while i <= last
        invariant
            0 < t@.len() <= s@.len(),
            n == s@.len(),
            last + t@.len() == s@.len(),
            i <= last + 1,
            forall|j: int| 0 <= j < i ==> #[trigger] s@.subrange(j, j + t@.len()) != t@,
        decreases last + 1 - i,
    {
        let mut piece: Vec<char> = Vec::new();
        let mut k: usize = 0;
        while k < t.len()
            invariant
                k <= t@.len(),
                i <= last,
                n == s@.len(),
                last + t@.len() == s@.len(),
                piece@ == s@.subrange(i as int, i + k),
            decreases t@.len() - k,
        {
            piece.push(s[i + k]);
            k = k + 1;
            assert(piece@ =~= s@.subrange(i as int, i + k));
        }
        if chars_eq(piece.as_slice(), t) {
            return true;
        }
        i = i + 1;
    }
    assert forall|j: int| 0 <= j && j + t@.len() <= s@.len() implies #[trigger] s@.subrange(
        j,
        j + t@.len(),
    ) != t@ by {}
    false
}

/// The code of an adapter failure: `unsupported-construct` when its error
/// output mentions `unsupported`, else `adapter-failed`.
pub open spec fn adapter_failure_code(stderr: Seq<char>) -> Seq<char> {
    if has_substring(stderr, "unsupported"@) {
        "unsupported-construct"@
    } else {
        "adapter-failed"@
    }
}

/// The message of an adapter failure: its trimmed error output with the exit
/// status, or the exit status alone when the output is blank.
pub open spec fn adapter_failure_message(stderr: Seq<char>, status: Seq<char>) -> Seq<char> {
    if trim(stderr).len() == 0 {
        "the `.opy` adapter bridge failed with exit "@ + status
    } else {
        trim(stderr) + " (adapter exit "@ + status + ")"@
    }
}

/// The frontend error for an adapter that exited unsuccessfully with error
/// output `stderr` and exit status `status` (as the status displays).
pub fn adapter_failure(stderr: &str, status: &str) -> (d: Diagnostic)
    ensures
        plain_diagnostic(
            d,
            adapter_failure_code(stderr@),
            Stage::Frontend,
            Severity::Error,
            adapter_failure_message(stderr@, status@),
        ),
{
    let s = chars_of(stderr);
    let pattern = chars_of("unsupported");
    let code = if contains_chars(s.as_slice(), pattern.as_slice()) {
        "unsupported-construct"
    } else {
        "adapter-failed"
    };
    let trimmed = trim_chars(s.as_slice());
    let message = if trimmed.len() == 0 {
        let mut m = owned("the `.opy` adapter bridge failed with exit ");
        m.append(status);
        m
    } else {
        let mut m = string_from_chars(trimmed.as_slice());
        m.append(" (adapter exit ");
        m.append(status);
        m.append(")");
        m
    };
    Diagnostic::error(code, Stage::Frontend, message.as_str())
}

} // verus!
