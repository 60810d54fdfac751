//! What the save-file chooser's answer means: the chosen path, no choice, or an
//! error to show. The chooser itself runs outside this library; it hands in whether
//! it succeeded and what it wrote to its standard output and standard error.
use vstd::prelude::*;
use vstd::string::StrSliceExecFns;

verus! {

pub const CHOOSER_CLOSED: &'static str = "The file chooser closed unexpectedly";

pub const USER_CANCELED: &'static str = "User canceled";

/// The error number the macOS chooser reports when the user cancels.
pub const CANCEL_CODE: &'static str = "(-128)";

/// `c` has the Unicode property White_Space (what `char::is_whitespace` tests).
pub open spec fn is_white_space(c: char) -> bool {
    ||| '\u{9}' <= c <= '\u{d}'
    ||| c == ' '
    ||| c == '\u{85}'
    ||| c == '\u{a0}'
    ||| c == '\u{1680}'
    ||| '\u{2000}' <= c <= '\u{200a}'
    ||| c == '\u{2028}'
    ||| c == '\u{2029}'
    ||| c == '\u{202f}'
    ||| c == '\u{205f}'
    ||| c == '\u{3000}'
}

/// The first position from `i` on that holds no white space (or the end).
pub open spec fn first_kept(s: Seq<char>, i: int) -> int
    decreases s.len() - i,
{
    if 0 <= i < s.len() && is_white_space(s[i]) {
        first_kept(s, i + 1)
    } else {
        i
    }
}

/// The end of `s[lo..j]` without its trailing white space.
pub open spec fn last_kept(s: Seq<char>, lo: int, j: int) -> int
    decreases j - lo,
{
    if lo < j && is_white_space(s[j - 1]) {
        last_kept(s, lo, j - 1)
    } else {
        j
    }
}

/// `s` without its leading and trailing white space, as `str::trim` gives it.
pub open spec fn trim_ws(s: Seq<char>) -> Seq<char> {
    let lo = first_kept(s, 0);
    s.subrange(lo, last_kept(s, lo, s.len() as int))
}

/// `pattern` occurs in `s`.
pub open spec fn contains_text(s: Seq<char>, pattern: Seq<char>) -> bool {
    exists|i: int|
        0 <= i && i + pattern.len() <= s.len() && #[trigger] s.subrange(i, i + pattern.len())
            == pattern
}

/// What the chooser's answer means, from whether it succeeded and its trimmed
/// output `out` and error text `err`: on success the path `out`, or no choice when
/// it is empty; a cancel is no choice; any other failure is an error with `err`,
/// or a fixed message when `err` is empty.
pub open spec fn chooser_result(succeeded: bool, out: Seq<char>, err: Seq<char>) -> Result<
    Option<Seq<char>>,
    Seq<char>,
> {
    if succeeded {
        if out.len() == 0 {
            Ok(None)
        } else {
            Ok(Some(out))
        }
    } else if contains_text(err, USER_CANCELED@) || contains_text(err, CANCEL_CODE@) {
        Ok(None)
    } else if err.len() == 0 {
        Err(CHOOSER_CLOSED@)
    } else {
        Err(err)
    }
}

/// The texts of an outcome.
pub open spec fn outcome_view(outcome: Result<Option<String>, String>) -> Result<
    Option<Seq<char>>,
    Seq<char>,
> {
    match outcome {
        Ok(Some(path)) => Ok(Some(path@)),
        Ok(None) => Ok(None),
        Err(message) => Err(message@),
    }
}

/// Whether `c` is white space.
fn white_space(c: char) -> (result: bool)
    ensures
        result == is_white_space(c),
{
    ('\u{9}' <= c && c <= '\u{d}') || c == ' ' || c == '\u{85}' || c == '\u{a0}' || c
        == '\u{1680}' || ('\u{2000}' <= c && c <= '\u{200a}') || c == '\u{2028}' || c
        == '\u{2029}' || c == '\u{202f}' || c == '\u{205f}' || c == '\u{3000}'
}

/// `s` without its leading and trailing white space.
pub fn trim(s: &str) -> (trimmed: String)
    ensures
        trimmed@ == trim_ws(s@),
{
    let len = s.unicode_len();
    let mut lo: usize = 0;
    while lo < len && white_space(s.get_char(lo))
        invariant
            lo <= len,
            len == s@.len(),
            first_kept(s@, 0) == first_kept(s@, lo as int),
        decreases len - lo,
    {
        lo += 1;
    }
    let mut hi: usize = len;
    while hi > lo && white_space(s.get_char(hi - 1))
        invariant
            lo <= hi <= len,
            len == s@.len(),
            first_kept(s@, 0) == lo,
            last_kept(s@, lo as int, len as int) == last_kept(s@, lo as int, hi as int),
        decreases hi - lo,
    {
        hi -= 1;
    }
    let mut trimmed = String::new();
    let mut k: usize = lo;
    while k < hi
        invariant
            lo <= k <= hi <= len,
            len == s@.len(),
            trimmed@ == s@.subrange(lo as int, k as int),
        decreases hi - k,
    {
        trimmed.push(s.get_char(k));
        k += 1;
        assert(trimmed@ =~= s@.subrange(lo as int, k as int));
    }
    trimmed
}

/// Whether `pattern` occurs in `s`.
pub fn contains(s: &str, pattern: &str) -> (found: bool)
    ensures
        found == contains_text(s@, pattern@),
{
    let len = s.unicode_len();
    let plen = pattern.unicode_len();
    if plen > len {
        assert(!contains_text(s@, pattern@));
        return false;
    }
    let mut i: usize = 0;
    while i <= len - plen
        invariant
            len == s@.len(),
            plen == pattern@.len(),
            plen <= len,
            i <= len - plen + 1,
            forall|j: int| 0 <= j < i ==> #[trigger] s@.subrange(j, j + plen) != pattern@,
        decreases len - i,
    {
        let mut k: usize = 0;
        while k < plen && s.get_char(i + k) == pattern.get_char(k)
            invariant
                len == s@.len(),
                plen == pattern@.len(),
                i + plen <= len,
                k <= plen,
                forall|m: int| 0 <= m < k ==> s@[i + m] == pattern@[m],
            decreases plen - k,
        {
            k += 1;
        }
        if k == plen {
            assert(s@.subrange(i as int, i + plen) =~= pattern@);
            return true;
        }
        assert(s@.subrange(i as int, i + plen)[k as int] != pattern@[k as int]);
        i += 1;
    }
    proof {
        assert forall|j: int| 0 <= j && j + plen <= len implies #[trigger] s@.subrange(
            j,
            j + plen,
        ) != pattern@ by {
            assert(j < i);
        }
    }
    false
}

/// What the chooser's answer means: whether it succeeded, and its standard output
/// and standard error. A success gives the trimmed path, or no choice when it is
/// empty; a failure whose trimmed error text mentions `User canceled` or `(-128)`
/// is a cancel, no choice; any other failure is an error with the trimmed text, or
/// `The file chooser closed unexpectedly` when it is empty.
pub fn chooser_outcome(succeeded: bool, stdout: &str, stderr: &str) -> (outcome: Result<
    Option<String>,
    String,
>)
    ensures
        outcome_view(outcome) == chooser_result(succeeded, trim_ws(stdout@), trim_ws(stderr@)),
{
    if succeeded {
        let path = trim(stdout);
        if path.unicode_len() == 0 {
            return Ok(None);
        }
        return Ok(Some(path));
    }
    let message = trim(stderr);
    if contains(message.as_str(), USER_CANCELED) || contains(message.as_str(), CANCEL_CODE) {
        return Ok(None);
    }
    if message.unicode_len() == 0 {
        Err(CHOOSER_CLOSED.to_owned())
    } else {
        Err(message)
    }
}

} // verus!
