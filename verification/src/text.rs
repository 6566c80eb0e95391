//! Helpers for moving between strings and character vectors.
//!
//! The codec and the status formatter build and read text as `Vec<char>`,
//! whose view matches the `Seq<char>` view of `String` and `&str` directly.

use vstd::prelude::*;
use vstd::string::StrSliceExecFns;

verus! {

/// Appends one character to a string.
///
/// Relies on `String::push`: appends the given character to the end of the
/// string.
#[verifier::external_body]
pub(crate) fn push_char(s: &mut String, c: char)
    ensures
        final(s)@ == old(s)@.push(c),
{
    s.push(c);
}

/// Collects the characters of a string slice into a vector.
pub fn str_to_chars(s: &str) -> (v: Vec<char>)
    ensures
        v@ == s@,
{
    let n = s.unicode_len();
    let mut v: Vec<char> = Vec::new();
    let mut i: usize = 0;
    while i < n
        invariant
            i <= n,
            n == s@.len(),
            v@ == s@.subrange(0, i as int),
        decreases n - i,
    {
        v.push(s.get_char(i));
        i += 1;
        proof {
            assert(v@ =~= s@.subrange(0, i as int));
        }
    }
    proof {
        assert(v@ =~= s@);
    }
    v
}

/// Builds a string from a vector of characters.
pub fn chars_to_string(v: &Vec<char>) -> (s: String)
    ensures
        s@ == v@,
{
    let mut s = String::new();
    let mut i: usize = 0;
    while i < v.len()
        invariant
            i <= v.len(),
            s@ == v@.subrange(0, i as int),
        decreases v.len() - i,
    {
        push_char(&mut s, v[i]);
        i += 1;
        proof {
            assert(s@ =~= v@.subrange(0, i as int));
        }
    }
    proof {
        assert(s@ =~= v@);
    }
    s
}

/// Appends every character of `pat` to `out`.
pub fn append_str_chars(out: &mut Vec<char>, pat: &str)
    ensures
        final(out)@ == old(out)@ + pat@,
{
    let n = pat.unicode_len();
    let mut i: usize = 0;
    while i < n
        invariant
            i <= n,
            n == pat@.len(),
            out@ == old(out)@ + pat@.subrange(0, i as int),
        decreases n - i,
    {
        out.push(pat.get_char(i));
        i += 1;
        proof {
            assert(out@ =~= old(out)@ + pat@.subrange(0, i as int));
        }
    }
    proof {
        assert(out@ =~= old(out)@ + pat@);
    }
}

/// Whether the text at `pos` continues with exactly the characters of `pat`.
pub fn match_at(text: &Vec<char>, pos: usize, pat: &str) -> (b: bool)
    requires
        pos <= text@.len(),
    ensures
        b == (pos + pat@.len() <= text@.len() && text@.subrange(
            pos as int,
            pos as int + pat@.len(),
        ) == pat@),
{
    let n = pat.unicode_len();
    if n > text.len() - pos {
        return false;
    }
    let mut i: usize = 0;
    while i < n
        invariant
            i <= n,
            n == pat@.len(),
            pos + n <= text@.len(),
            text@.len() <= usize::MAX,
            forall|j: int| 0 <= j < i ==> text@[pos + j] == pat@[j],
        decreases n - i,
    {
        if text[pos + i] != pat.get_char(i) {
            proof {
                let k = i as int;
                assert(text@.subrange(pos as int, pos as int + pat@.len())[k] != pat@[k]);
            }
            return false;
        }
        i += 1;
    }
    proof {
        assert(text@.subrange(pos as int, pos as int + pat@.len()) =~= pat@);
    }
    true
}

} // verus!
