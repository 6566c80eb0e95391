//! Decimal text for unsigned values.
//!
//! The state file and the status line both spell numbers in plain decimal.
//! `spec_dec` is the canonical spelling (no sign, no leading zero) and
//! `spec_val` reads a digit sequence back; the lemmas here pin down that the
//! two are inverse to each other and that a decimal number in a longer text
//! is read off unambiguously.

use vstd::prelude::*;

verus! {

/// Every character is a Unicode scalar value; its code agrees between the
/// `int` and `u32` readings.  Stated here because a character drawn from a
/// sequence does not carry these bounds by itself.
pub proof fn lemma_char_bounds(c: char)
    ensures
        0 <= c as int <= 0x10FFFF,
        c as int == c as u32,
{
}

/// The ten ASCII digit characters.
pub open spec fn is_digit_char(c: char) -> bool {
    48 <= c as int <= 57
}

/// Numeric value of a digit character.
pub open spec fn digit_val(c: char) -> nat
    recommends
        is_digit_char(c),
{
    (c as int - 48) as nat
}

/// The digit character for a value below ten.
pub open spec fn digit_char(d: nat) -> char
    recommends
        d < 10,
{
    (48 + d) as char
}

/// Canonical decimal spelling of `n`: nonempty, digits only, and no leading
/// zero except for `n == 0` itself.
pub open spec fn spec_dec(n: nat) -> Seq<char>
    decreases n,
{
    if n < 10 {
        seq![digit_char(n)]
    } else {
        spec_dec(n / 10).push(digit_char(n % 10))
    }
}

/// Value of a digit sequence, most significant digit first.
pub open spec fn spec_val(s: Seq<char>) -> nat
    decreases s.len(),
{
    if s.len() == 0 {
        0
    } else {
        spec_val(s.drop_last()) * 10 + digit_val(s.last())
    }
}

pub proof fn lemma_digit_char_val(d: nat)
    requires
        d < 10,
    ensures
        is_digit_char(digit_char(d)),
        digit_val(digit_char(d)) == d,
{
}

pub proof fn lemma_digit_val_char(c: char)
    requires
        is_digit_char(c),
    ensures
        digit_val(c) < 10,
        digit_char(digit_val(c)) == c,
{
}

/// The canonical spelling is nonempty and made of digits alone.
pub proof fn lemma_dec_digits(n: nat)
    ensures
        spec_dec(n).len() >= 1,
        forall|i: int| 0 <= i < spec_dec(n).len() ==> is_digit_char(#[trigger] spec_dec(n)[i]),
    decreases n,
{
    if n < 10 {
        lemma_digit_char_val(n);
    } else {
        lemma_dec_digits(n / 10);
        lemma_digit_char_val(n % 10);
    }
}

/// A value of ten or more is spelled with at least two digits, and no
/// canonical spelling of a nonzero value starts with a zero.
pub proof fn lemma_dec_shape(n: nat)
    ensures
        n < 10 ==> spec_dec(n).len() == 1,
        n >= 10 ==> spec_dec(n).len() >= 2,
        n > 0 ==> spec_dec(n)[0] != '0',
    decreases n,
{
    if n >= 10 {
        lemma_dec_shape(n / 10);
        lemma_dec_digits(n / 10);
    }
}

/// Reading the canonical spelling gives the value back.
pub proof fn lemma_val_dec(n: nat)
    ensures
        spec_val(spec_dec(n)) == n,
    decreases n,
{
    if n < 10 {
        lemma_digit_char_val(n);
        assert(spec_dec(n).drop_last().len() == 0);
        assert(spec_val(spec_dec(n).drop_last()) == 0);
        assert(spec_dec(n).last() == digit_char(n));
    } else {
        lemma_val_dec(n / 10);
        lemma_digit_char_val(n % 10);
        assert(spec_dec(n).drop_last() == spec_dec(n / 10));
        assert(spec_dec(n).last() == digit_char(n % 10));
    }
}

/// Spelling the value of a digit run gives the run back, as long as the run
/// is canonical (no leading zero).
pub proof fn lemma_dec_val(s: Seq<char>)
    requires
        s.len() >= 1,
        forall|i: int| 0 <= i < s.len() ==> is_digit_char(#[trigger] s[i]),
        s[0] != '0' || s.len() == 1,
    ensures
        spec_dec(spec_val(s)) == s,
    decreases s.len(),
{
    if s.len() == 1 {
        lemma_digit_val_char(s[0]);
        assert(s.drop_last().len() == 0);
        assert(spec_val(s.drop_last()) == 0);
        assert(spec_val(s) == digit_val(s[0]));
        assert(spec_dec(spec_val(s)) =~= s);
    } else {
        let s0 = s.drop_last();
        assert(s0[0] == s[0]);
        lemma_dec_val(s0);
        lemma_val_first_nonzero(s0);
        lemma_digit_val_char(s.last());
        let v = spec_val(s);
        assert(v == spec_val(s0) * 10 + digit_val(s.last()));
        assert(spec_val(s0) >= 1);
        assert(v >= 10);
        assert(v / 10 == spec_val(s0) && v % 10 == digit_val(s.last())) by (nonlinear_arith)
            requires
                v == spec_val(s0) * 10 + digit_val(s.last()),
                digit_val(s.last()) < 10,
        ;
        assert(spec_dec(v) == spec_dec(spec_val(s0)).push(digit_char(digit_val(s.last()))));
        assert(spec_dec(v) =~= s);
    }
}

/// A digit run that does not start with '0' has a nonzero value.
pub proof fn lemma_val_first_nonzero(s: Seq<char>)
    requires
        s.len() >= 1,
        forall|i: int| 0 <= i < s.len() ==> is_digit_char(#[trigger] s[i]),
        s[0] != '0',
    ensures
        spec_val(s) >= 1,
    decreases s.len(),
{
    if s.len() == 1 {
        assert(digit_val(s[0]) >= 1);
    } else {
        let s0 = s.drop_last();
        assert(s0[0] == s[0]);
        lemma_val_first_nonzero(s0);
    }
}

/// Appending digits multiplies the leading value by the corresponding power
/// of ten, so a value never shrinks as more digits are read.
pub proof fn lemma_val_prefix_le(s: Seq<char>, k: int)
    requires
        0 <= k <= s.len(),
    ensures
        spec_val(s.subrange(0, k)) <= spec_val(s),
    decreases s.len() - k,
{
    if k < s.len() {
        let t = s.subrange(0, k + 1);
        assert(t.drop_last() == s.subrange(0, k));
        assert(spec_val(t) == spec_val(s.subrange(0, k)) * 10 + digit_val(t.last()));
        assert(spec_val(s.subrange(0, k)) <= spec_val(s.subrange(0, k)) * 10) by (nonlinear_arith);
        lemma_val_prefix_le(s, k + 1);
    } else {
        assert(s.subrange(0, s.len() as int) == s);
    }
}

/// End of the maximal digit run that begins at `i`.
pub open spec fn digit_run_end(t: Seq<char>, i: int) -> int
    recommends
        0 <= i <= t.len(),
    decreases t.len() - i when 0 <= i <= t.len()
{
    if i < t.len() && is_digit_char(t[i]) {
        digit_run_end(t, i + 1)
    } else {
        i
    }
}

/// The maximal digit run: everything in it is a digit, and it stops at the
/// end of the text or just before a non-digit.
pub proof fn lemma_digit_run_end(t: Seq<char>, i: int)
    requires
        0 <= i <= t.len(),
    ensures
        i <= digit_run_end(t, i) <= t.len(),
        forall|j: int| i <= j < digit_run_end(t, i) ==> is_digit_char(#[trigger] t[j]),
        digit_run_end(t, i) == t.len() || !is_digit_char(t[digit_run_end(t, i)]),
    decreases t.len() - i,
{
    if i < t.len() && is_digit_char(t[i]) {
        lemma_digit_run_end(t, i + 1);
    }
}

/// A run of `k` digits followed by the end of the text or a non-digit is
/// exactly the maximal run.
pub proof fn lemma_digit_run_of(t: Seq<char>, i: int, k: int)
    requires
        0 <= i,
        0 <= k,
        i + k <= t.len(),
        forall|j: int| i <= j < i + k ==> is_digit_char(#[trigger] t[j]),
        i + k == t.len() || !is_digit_char(t[i + k]),
    ensures
        digit_run_end(t, i) == i + k,
    decreases k,
{
    if k > 0 {
        assert(is_digit_char(t[i]));
        lemma_digit_run_of(t, i + 1, k - 1);
    }
}

/// Whether the text at `i` starts with a canonical decimal number that fits
/// in a `u64`.
pub open spec fn dec_parseable(t: Seq<char>, i: int) -> bool
    recommends
        0 <= i <= t.len(),
{
    let e = digit_run_end(t, i);
    &&& e > i
    &&& (t[i] != '0' || e == i + 1)
    &&& spec_val(t.subrange(i, e)) <= u64::MAX
}

/// The value of that number.
pub open spec fn dec_value(t: Seq<char>, i: int) -> nat
    recommends
        0 <= i <= t.len(),
{
    spec_val(t.subrange(i, digit_run_end(t, i)))
}

/// Where the text at `i` reads as the canonical spelling of `n` followed by
/// the end of the text or a non-digit, the number parsed there is `n` and it
/// occupies exactly the spelling.
pub proof fn lemma_dec_at(t: Seq<char>, i: int, n: u64)
    requires
        0 <= i,
        i + spec_dec(n as nat).len() <= t.len(),
        t.subrange(i, i + spec_dec(n as nat).len() as int) == spec_dec(n as nat),
        i + spec_dec(n as nat).len() == t.len() || !is_digit_char(
            t[i + spec_dec(n as nat).len()],
        ),
    ensures
        dec_parseable(t, i),
        dec_value(t, i) == n,
        digit_run_end(t, i) == i + spec_dec(n as nat).len(),
{
    let d = spec_dec(n as nat);
    lemma_dec_digits(n as nat);
    lemma_dec_shape(n as nat);
    lemma_val_dec(n as nat);
    assert(forall|j: int| i <= j < i + d.len() ==> is_digit_char(#[trigger] t[j])) by {
        assert(forall|j: int| i <= j < i + d.len() ==> t[j] == d[j - i]);
    }
    lemma_digit_run_of(t, i, d.len() as int);
    assert(t[i] == d[0]);
    if n == 0 {
        assert(d.len() == 1);
    } else {
        assert(t[i] != '0');
    }
}

/// Exec test for an ASCII digit.
pub fn is_digit(c: char) -> (b: bool)
    ensures
        b == is_digit_char(c),
{
    let v = c as u32;
    48 <= v && v <= 57
}

/// Exec digit character of a value below ten.
pub fn digit_to_char(d: u8) -> (c: char)
    requires
        d < 10,
    ensures
        c == digit_char(d as nat),
{
    (48 + d) as char
}

/// Exec numeric value of a digit character.
pub fn char_to_digit(c: char) -> (d: u8)
    requires
        is_digit_char(c),
    ensures
        d == digit_val(c),
        d < 10,
{
    (c as u32 - 48) as u8
}

/// Appends the canonical decimal spelling of `n`.
pub fn push_dec_u64(out: &mut Vec<char>, n: u64)
    ensures
        final(out)@ == old(out)@ + spec_dec(n as nat),
    decreases n,
{
    if n < 10 {
        out.push(digit_to_char(n as u8));
        proof {
            assert(out@ =~= old(out)@ + spec_dec(n as nat));
        }
    } else {
        push_dec_u64(out, n / 10);
        out.push(digit_to_char((n % 10) as u8));
        proof {
            assert(out@ =~= old(out)@ + spec_dec(n as nat));
        }
    }
}

/// Decimal spelling padded with a zero to at least two digits.
pub open spec fn spec_two_digit(n: nat) -> Seq<char> {
    if n < 10 {
        seq!['0', digit_char(n)]
    } else {
        spec_dec(n)
    }
}

/// Appends the zero-padded two-digit spelling of `n`.
pub fn push_two_digit(out: &mut Vec<char>, n: u64)
    ensures
        final(out)@ == old(out)@ + spec_two_digit(n as nat),
{
    if n < 10 {
        out.push('0');
        out.push(digit_to_char(n as u8));
        proof {
            assert(out@ =~= old(out)@ + spec_two_digit(n as nat));
        }
    } else {
        push_dec_u64(out, n);
    }
}

/// Reads the canonical decimal number that begins at `start`, if one does:
/// the maximal digit run there, refused when it is empty, has a leading
/// zero, or exceeds `u64::MAX`.  On success the number and the position
/// just past it are returned.
pub fn parse_dec_at(text: &Vec<char>, start: usize) -> (r: Option<(u64, usize)>)
    requires
        start <= text@.len(),
    ensures
        r matches Some(p) ==> ({
            &&& dec_parseable(text@, start as int)
            &&& p.0 == dec_value(text@, start as int)
            &&& start < p.1 <= text@.len()
            &&& p.1 == digit_run_end(text@, start as int)
            &&& text@.subrange(start as int, p.1 as int) == spec_dec(p.0 as nat)
        }),
        r is None ==> !dec_parseable(text@, start as int),
{
    let ghost t = text@;
    proof {
        lemma_digit_run_end(t, start as int);
    }
    let len = text.len();
    if start >= len {
        return None;
    }
    if !is_digit(text[start]) {
        return None;
    }
    if text[start] == '0' {
        if start + 1 < len && is_digit(text[start + 1]) {
            proof {
                assert(digit_run_end(t, start as int) == digit_run_end(t, start + 1));
                lemma_digit_run_end(t, start + 1);
                assert(digit_run_end(t, start + 1) == digit_run_end(t, start + 2));
            }
            return None;
        }
        proof {
            lemma_digit_run_of(t, start as int, 1);
            let r0 = t.subrange(start as int, start + 1);
            assert(r0 =~= seq![t[start as int]]);
            assert(r0.drop_last().len() == 0);
            assert(spec_val(r0.drop_last()) == 0);
            assert(digit_val('0') == 0);
            assert(spec_val(r0) == 0);
            assert(digit_char(0) == '0');
            assert(r0 =~= spec_dec(0));
        }
        return Some((0, start + 1));
    }
    let mut i: usize = start;
    let mut acc: u64 = 0;
    while i < len && is_digit(text[i])
        invariant
            start <= i <= len,
            len == t.len() <= usize::MAX,
            t == text@,
            t[start as int] != '0',
            start == i || is_digit_char(t[start as int]),
            forall|j: int| start <= j < i ==> is_digit_char(#[trigger] t[j]),
            acc == spec_val(t.subrange(start as int, i as int)),
        decreases len - i,
    {
        let d = char_to_digit(text[i]);
        if acc > (u64::MAX - d as u64) / 10 {
            proof {
                let run_end = digit_run_end(t, start as int);
                lemma_digit_run_end(t, start as int);
                lemma_digit_run_of_extends(t, start as int, i as int);
                let consumed = t.subrange(start as int, i + 1);
                assert(consumed.drop_last() =~= t.subrange(start as int, i as int));
                assert(consumed.last() == t[i as int]);
                assert(spec_val(consumed) == acc * 10 + d);
                assert(acc * 10 + d > u64::MAX) by (nonlinear_arith)
                    requires
                        acc > (u64::MAX - d as u64) / 10,
                        d < 10,
                ;
                let run = t.subrange(start as int, run_end);
                assert(run.subrange(0, i + 1 - start) =~= consumed);
                lemma_val_prefix_le(run, i + 1 - start);
            }
            return None;
        }
        acc = acc * 10 + d as u64;
        i += 1;
        proof {
            let consumed = t.subrange(start as int, i as int);
            assert(consumed.drop_last() =~= t.subrange(start as int, i - 1));
            assert(consumed.last() == t[i - 1]);
        }
    }
    proof {
        lemma_digit_run_of(t, start as int, i - start);
        let run = t.subrange(start as int, i as int);
        lemma_dec_val(run);
    }
    Some((acc, i))
}

/// Inside the maximal digit run, the run end seen from a later digit
/// position is the same run end.
pub proof fn lemma_digit_run_of_extends(t: Seq<char>, start: int, i: int)
    requires
        0 <= start <= i <= t.len(),
        forall|j: int| start <= j < i ==> is_digit_char(#[trigger] t[j]),
    ensures
        digit_run_end(t, start) == digit_run_end(t, i),
    decreases i - start,
{
    if start < i {
        assert(is_digit_char(t[start]));
        lemma_digit_run_of_extends(t, start + 1, i);
    }
}

} // verus!
