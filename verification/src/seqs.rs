//! Splitting a text along a known concatenation.
//!
//! The codec states the state-file format as one long concatenation of
//! separators, numbers and an escaped path.  The lemma here peels one part
//! off the front of such a statement: where the text from `i` on is known
//! to be `a + b`, the part `a` sits character by character at `i`, and the
//! text from `i + a.len()` on is `b`.

use vstd::prelude::*;

verus! {

pub proof fn lemma_split_prefix(t: Seq<char>, i: int, a: Seq<char>, b: Seq<char>)
    requires
        0 <= i <= t.len(),
        t.subrange(i, t.len() as int) == a + b,
    ensures
        i + a.len() + b.len() == t.len(),
        t.subrange(i + a.len(), t.len() as int) == b,
        t.subrange(i, i + a.len()) == a,
        forall|j: int| 0 <= j < a.len() ==> t[i + j] == #[trigger] a[j],
{
    let rest = t.subrange(i, t.len() as int);
    assert(rest.len() == a.len() + b.len());
    assert forall|j: int| 0 <= j < a.len() implies t[i + j] == #[trigger] a[j] by {
        assert(rest[j] == (a + b)[j]);
        assert((a + b)[j] == a[j]);
        assert(rest[j] == t[i + j]);
    }
    assert(t.subrange(i + a.len(), t.len() as int) =~= b) by {
        assert forall|j: int| 0 <= j < b.len() implies t[i + a.len() + j] == #[trigger] b[j] by {
            assert(rest[a.len() + j] == (a + b)[a.len() + j]);
            assert((a + b)[a.len() + j] == b[j]);
            assert(rest[a.len() + j] == t[i + a.len() + j]);
        }
    }
    assert(t.subrange(i, i + a.len()) =~= a);
}

/// A stretch of text is the concatenation of its two halves.
pub proof fn lemma_concat_parts(t: Seq<char>, a: int, b: int, c: int)
    requires
        0 <= a <= b <= c <= t.len(),
    ensures
        t.subrange(a, c) == t.subrange(a, b) + t.subrange(b, c),
{
    assert(t.subrange(a, c) =~= t.subrange(a, b) + t.subrange(b, c));
}

} // verus!
