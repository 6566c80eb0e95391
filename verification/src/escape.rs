//! JSON string escaping for the path field of the state file.
//!
//! A path may hold quotes, backslashes or control characters, which a JSON
//! string spells escaped: `\"`, `\\`, and `\u00XY` with two lowercase hex
//! digits for the controls.  `spec_escape` is that spelling; `str_scan`
//! reads a whole string body back up to its closing quote.  The two lemmas
//! at the end pin down that scanning is inverse to escaping: whatever
//! `spec_escape` wrote, `str_scan` reads back, and whatever `str_scan`
//! accepted is the escaped spelling of its result.

use vstd::prelude::*;

use crate::digits::char_to_digit;
use crate::digits::lemma_char_bounds;
use crate::digits::digit_char;
use crate::digits::digit_to_char;
use crate::digits::digit_val;
use crate::digits::is_digit;
use crate::digits::is_digit_char;

verus! {

/// Lowercase hexadecimal digit characters.
pub open spec fn is_hex_char(c: char) -> bool {
    is_digit_char(c) || 97 <= c as int <= 102
}

/// Numeric value of a hexadecimal digit character.
pub open spec fn hex_val(c: char) -> nat
    recommends
        is_hex_char(c),
{
    if is_digit_char(c) {
        digit_val(c)
    } else {
        (c as int - 87) as nat
    }
}

/// The lowercase hexadecimal digit character for a value below sixteen.
pub open spec fn hex_char(d: nat) -> char
    recommends
        d < 16,
{
    if d < 10 {
        digit_char(d)
    } else {
        (87 + d) as char
    }
}

pub proof fn lemma_hex_char_val(d: nat)
    requires
        d < 16,
    ensures
        is_hex_char(hex_char(d)),
        hex_val(hex_char(d)) == d,
{
}

pub proof fn lemma_hex_val_char(c: char)
    requires
        is_hex_char(c),
    ensures
        hex_val(c) < 16,
        hex_char(hex_val(c)) == c,
{
}

/// The escaped spelling of one character.
pub open spec fn spec_escape_char(c: char) -> Seq<char> {
    if c == '"' {
        seq!['\\', '"']
    } else if c == '\\' {
        seq!['\\', '\\']
    } else if (c as int) < 32 {
        seq!['\\', 'u', '0', '0', hex_char((c as int / 16) as nat), hex_char((c as int % 16) as nat)]
    } else {
        seq![c]
    }
}

/// The escaped spelling of a string: each character in turn.
pub open spec fn spec_escape(s: Seq<char>) -> Seq<char>
    decreases s.len(),
{
    if s.len() == 0 {
        Seq::empty()
    } else {
        spec_escape_char(s[0]) + spec_escape(s.drop_first())
    }
}

/// Escaping a concatenation escapes the parts in turn.
pub proof fn lemma_escape_append(a: Seq<char>, b: Seq<char>)
    ensures
        spec_escape(a + b) == spec_escape(a) + spec_escape(b),
    decreases a.len(),
{
    if a.len() == 0 {
        assert(a + b =~= b);
        assert(spec_escape(a) + spec_escape(b) =~= spec_escape(b));
    } else {
        assert((a + b)[0] == a[0]);
        assert((a + b).drop_first() =~= a.drop_first() + b);
        lemma_escape_append(a.drop_first(), b);
        assert(spec_escape_char(a[0]) + (spec_escape(a.drop_first()) + spec_escape(b)) =~= (
        spec_escape_char(a[0]) + spec_escape(a.drop_first())) + spec_escape(b));
    }
}

/// The escaped spelling of a single character.
pub proof fn lemma_escape_one(c: char)
    ensures
        spec_escape(seq![c]) == spec_escape_char(c),
{
    assert(seq![c].drop_first().len() == 0);
    assert(spec_escape(seq![c].drop_first()) == Seq::<char>::empty());
    assert(spec_escape(seq![c]) =~= spec_escape_char(c));
}

/// Exec test for a lowercase hexadecimal digit.
pub fn is_hex(c: char) -> (b: bool)
    ensures
        b == is_hex_char(c),
{
    let v = c as u32;
    (48 <= v && v <= 57) || (97 <= v && v <= 102)
}

/// Exec lowercase hexadecimal digit character of a value below sixteen.
pub fn hex_to_char(d: u8) -> (c: char)
    requires
        d < 16,
    ensures
        c == hex_char(d as nat),
{
    if d < 10 {
        digit_to_char(d)
    } else {
        (87 + d) as char
    }
}

/// Exec numeric value of a hexadecimal digit character.
pub fn char_to_hex(c: char) -> (d: u8)
    requires
        is_hex_char(c),
    ensures
        d == hex_val(c),
        d < 16,
{
    if is_digit(c) {
        char_to_digit(c)
    } else {
        (c as u32 - 87) as u8
    }
}

/// Appends the escaped spelling of every character of `s`.
pub fn push_escaped(out: &mut Vec<char>, s: &Vec<char>)
    ensures
        final(out)@ == old(out)@ + spec_escape(s@),
{
    let mut i: usize = 0;
    while i < s.len()
        invariant
            i <= s@.len(),
            out@ == old(out)@ + spec_escape(s@.subrange(0, i as int)),
        decreases s@.len() - i,
    {
        let c = s[i];
        proof {
            lemma_char_bounds(c);
        }
        if c == '"' {
            out.push('\\');
            out.push('"');
        } else if c == '\\' {
            out.push('\\');
            out.push('\\');
        } else if (c as u32) < 32 {
            let v = c as u32;
            proof {
                lemma_char_bounds(c);
                assert(((v / 16) as u8) as nat == (c as int / 16) as nat);
                assert(((v % 16) as u8) as nat == (c as int % 16) as nat);
            }
            out.push('\\');
            out.push('u');
            out.push('0');
            out.push('0');
            out.push(hex_to_char((v / 16) as u8));
            out.push(hex_to_char((v % 16) as u8));
        } else {
            out.push(c);
        }
        proof {
            let pre = s@.subrange(0, i as int);
            lemma_escape_append(pre, seq![c]);
            lemma_escape_one(c);
            assert(s@.subrange(0, i + 1) =~= pre + seq![c]);
            assert(out@ =~= old(out)@ + spec_escape(s@.subrange(0, i + 1)));
        }
        i += 1;
    }
    proof {
        assert(s@.subrange(0, s@.len() as int) =~= s@);
    }
}

/// Reading a JSON string body that begins at `i`: the decoded characters
/// and the position just past the closing quote, or nothing where the text
/// is not a correctly escaped, quote-terminated string body.
pub open spec fn str_scan(t: Seq<char>, i: int) -> Option<(Seq<char>, int)>
    decreases t.len() - i when 0 <= i <= t.len()
{
    if i >= t.len() {
        None
    } else if t[i] == '"' {
        Some((Seq::empty(), i + 1))
    } else if t[i] == '\\' {
        if i + 1 < t.len() && (t[i + 1] == '"' || t[i + 1] == '\\') {
            scan_prepend(seq![t[i + 1]], str_scan(t, i + 2))
        } else if i + 5 < t.len() && t[i + 1] == 'u' && t[i + 2] == '0' && t[i + 3] == '0'
            && is_hex_char(t[i + 4]) && is_hex_char(t[i + 5]) && hex_val(t[i + 4]) * 16 + hex_val(
            t[i + 5],
        ) < 32 {
            scan_prepend(
                seq![((hex_val(t[i + 4]) * 16 + hex_val(t[i + 5])) as char)],
                str_scan(t, i + 6),
            )
        } else {
            None
        }
    } else if (t[i] as int) < 32 {
        None
    } else {
        scan_prepend(seq![t[i]], str_scan(t, i + 1))
    }
}

/// Puts already-decoded characters in front of a scan result.
pub open spec fn scan_prepend(s: Seq<char>, r: Option<(Seq<char>, int)>) -> Option<
    (Seq<char>, int),
> {
    match r {
        Some(p) => Some((s + p.0, p.1)),
        None => None,
    }
}

pub proof fn lemma_scan_prepend_empty(r: Option<(Seq<char>, int)>)
    ensures
        scan_prepend(Seq::empty(), r) == r,
{
    match r {
        Some(p) => {
            assert(Seq::empty() + p.0 =~= p.0);
        },
        None => {},
    }
}

pub proof fn lemma_scan_prepend_assoc(a: Seq<char>, b: Seq<char>, r: Option<(Seq<char>, int)>)
    ensures
        scan_prepend(a, scan_prepend(b, r)) == scan_prepend(a + b, r),
{
    match r {
        Some(p) => {
            assert(a + (b + p.0) =~= (a + b) + p.0);
        },
        None => {},
    }
}

/// What a successful scan consumed is the escaped spelling of its result,
/// closed by one quote.
pub proof fn lemma_scan_sound(t: Seq<char>, i: int)
    requires
        0 <= i <= t.len(),
        str_scan(t, i) is Some,
    ensures
        ({
            let (s, e) = str_scan(t, i).unwrap();
            &&& i < e <= t.len()
            &&& t.subrange(i, e) == spec_escape(s) + seq!['"']
        }),
    decreases t.len() - i,
{
    let (s, e) = str_scan(t, i).unwrap();
    lemma_char_bounds(t[i]);
    if t[i] == '"' {
        assert(spec_escape(s).len() == 0);
        assert(t.subrange(i, e) =~= spec_escape(s) + seq!['"']);
    } else if t[i] == '\\' {
        if i + 1 < t.len() && (t[i + 1] == '"' || t[i + 1] == '\\') {
            lemma_scan_sound(t, i + 2);
            let (s2, _) = str_scan(t, i + 2).unwrap();
            lemma_escape_append(seq![t[i + 1]], s2);
            lemma_escape_one(t[i + 1]);
            assert(t.subrange(i, i + 2) =~= spec_escape_char(t[i + 1]));
            assert(t.subrange(i, e) =~= t.subrange(i, i + 2) + t.subrange(i + 2, e));
            assert(t.subrange(i, e) =~= spec_escape(s) + seq!['"']);
        } else {
            let a = hex_val(t[i + 4]);
            let b = hex_val(t[i + 5]);
            let v = a * 16 + b;
            let c = v as char;
            assert(c as int == v);
            lemma_hex_val_char(t[i + 4]);
            lemma_hex_val_char(t[i + 5]);
            assert(v / 16 == a && v % 16 == b) by (nonlinear_arith)
                requires
                    v == a * 16 + b,
                    b < 16,
            ;
            lemma_scan_sound(t, i + 6);
            let (s2, _) = str_scan(t, i + 6).unwrap();
            lemma_escape_append(seq![c], s2);
            lemma_escape_one(c);
            assert(spec_escape_char(c) =~= t.subrange(i, i + 6));
            assert(t.subrange(i, e) =~= t.subrange(i, i + 6) + t.subrange(i + 6, e));
            assert(t.subrange(i, e) =~= spec_escape(s) + seq!['"']);
        }
    } else {
        lemma_scan_sound(t, i + 1);
        let (s2, _) = str_scan(t, i + 1).unwrap();
        lemma_escape_append(seq![t[i]], s2);
        lemma_escape_one(t[i]);
        assert(t.subrange(i, i + 1) =~= spec_escape_char(t[i]));
        assert(t.subrange(i, e) =~= t.subrange(i, i + 1) + t.subrange(i + 1, e));
        assert(t.subrange(i, e) =~= spec_escape(s) + seq!['"']);
    }
}

/// Where the text continues with an escaped spelling, its closing quote and
/// anything after, the scan reads back exactly the spelled characters and
/// stops just past the quote.
pub proof fn lemma_scan_complete(t: Seq<char>, i: int, fp: Seq<char>, tail: Seq<char>)
    requires
        0 <= i <= t.len(),
        t.subrange(i, t.len() as int) == spec_escape(fp) + seq!['"'] + tail,
    ensures
        str_scan(t, i) == Some((fp, i + spec_escape(fp).len() + 1)),
    decreases fp.len(),
{
    let rest = t.subrange(i, t.len() as int);
    assert(rest.len() == t.len() - i);
    if fp.len() == 0 {
        assert(spec_escape(fp).len() == 0);
        assert(t[i] == rest[0]);
        assert(rest[0] == '"');
        assert(str_scan(t, i) == Some((Seq::<char>::empty(), i + 1)));
        assert(fp =~= Seq::<char>::empty());
    } else {
        let c = fp[0];
        lemma_char_bounds(c);
        let fp2 = fp.drop_first();
        assert(spec_escape(fp) == spec_escape_char(c) + spec_escape(fp2));
        let ec = spec_escape_char(c);
        let after = spec_escape(fp2) + seq!['"'] + tail;
        assert(t.subrange(i, t.len() as int) == ec + after) by {
            assert(spec_escape(fp) + seq!['"'] + tail =~= ec + after);
        }
        crate::seqs::lemma_split_prefix(t, i, ec, after);
        let i2 = i + ec.len();
        lemma_scan_complete(t, i2, fp2, tail);
        if c == '"' {
            assert(t[i] == ec[0] && t[i + 1] == ec[1]);
            assert(str_scan(t, i) == scan_prepend(seq!['"'], str_scan(t, i + 2)));
            assert(seq!['"'] + fp2 =~= fp);
        } else if c == '\\' {
            assert(t[i] == ec[0] && t[i + 1] == ec[1]);
            assert(str_scan(t, i) == scan_prepend(seq!['\\'], str_scan(t, i + 2)));
            assert(seq!['\\'] + fp2 =~= fp);
        } else if (c as int) < 32 {
            let a = (c as int / 16) as nat;
            let b = (c as int % 16) as nat;
            lemma_hex_char_val(a);
            lemma_hex_char_val(b);
            assert(t[i] == ec[0] && t[i + 1] == ec[1] && t[i + 2] == ec[2] && t[i + 3] == ec[3]
                && t[i + 4] == ec[4] && t[i + 5] == ec[5]);
            assert(t[i + 4] == hex_char(a) && t[i + 5] == hex_char(b));
            assert(16 * (c as int / 16) + c as int % 16 == c as int);
            assert(hex_val(t[i + 4]) * 16 + hex_val(t[i + 5]) == c as int);
            assert(((hex_val(t[i + 4]) * 16 + hex_val(t[i + 5])) as char) == c);
            assert(str_scan(t, i) == scan_prepend(seq![c], str_scan(t, i + 6)));
            assert(seq![c] + fp2 =~= fp);
        } else {
            assert(t[i] == ec[0]);
            assert(t[i] == c);
            assert(str_scan(t, i) == scan_prepend(seq![c], str_scan(t, i + 1)));
            assert(seq![c] + fp2 =~= fp);
        }
    }
}

/// Reads a JSON string body that begins at `start`, exactly as `str_scan`
/// describes it.
pub fn parse_str_at(text: &Vec<char>, start: usize) -> (r: Option<(Vec<char>, usize)>)
    requires
        start <= text@.len(),
    ensures
        r matches Some(p) ==> str_scan(text@, start as int) == Some((p.0@, p.1 as int)),
        r is None ==> str_scan(text@, start as int) is None,
{
    let ghost t = text@;
    let len = text.len();
    let mut built: Vec<char> = Vec::new();
    let mut i: usize = start;
    proof {
        lemma_scan_prepend_empty(str_scan(t, start as int));
        assert(built@ =~= Seq::<char>::empty());
    }
    loop
        invariant
            start <= i <= len,
            len == t.len() <= usize::MAX,
            t == text@,
            str_scan(t, start as int) == scan_prepend(built@, str_scan(t, i as int)),
        decreases len - i,
    {
        if i >= len {
            return None;
        }
        let c = text[i];
        proof {
            lemma_char_bounds(c);
        }
        if c == '"' {
            proof {
                assert(str_scan(t, i as int) == Some((Seq::<char>::empty(), i + 1)));
                assert(built@ + Seq::<char>::empty() =~= built@);
            }
            return Some((built, i + 1));
        }
        if c == '\\' {
            if i + 1 < len && (text[i + 1] == '"' || text[i + 1] == '\\') {
                let ghost pre = built@;
                built.push(text[i + 1]);
                proof {
                    assert(str_scan(t, i as int) == scan_prepend(
                        seq![t[i + 1]],
                        str_scan(t, i + 2),
                    ));
                    lemma_scan_prepend_assoc(pre, seq![t[i + 1]], str_scan(t, i + 2));
                    assert(pre + seq![t[i + 1]] =~= built@);
                }
                i = i + 2;
            } else if len - i > 5 && text[i + 1] == 'u' && text[i + 2] == '0' && text[i + 3] == '0'
                && is_hex(text[i + 4]) && is_hex(text[i + 5]) {
                let a = char_to_hex(text[i + 4]);
                let b = char_to_hex(text[i + 5]);
                let v: u32 = a as u32 * 16 + b as u32;
                if v < 32 {
                    let ghost pre = built@;
                    let decoded = (v as u8) as char;
                    built.push(decoded);
                    proof {
                        assert(v == hex_val(t[i + 4]) * 16 + hex_val(t[i + 5]));
                        assert(decoded == ((hex_val(t[i + 4]) * 16 + hex_val(t[i + 5])) as char));
                        assert(str_scan(t, i as int) == scan_prepend(
                            seq![decoded],
                            str_scan(t, i + 6),
                        ));
                        lemma_scan_prepend_assoc(pre, seq![decoded], str_scan(t, i + 6));
                        assert(pre + seq![decoded] =~= built@);
                    }
                    i = i + 6;
                } else {
                    proof {
                        assert(str_scan(t, i as int) is None);
                    }
                    return None;
                }
            } else {
                return None;
            }
        } else if (c as u32) < 32 {
            return None;
        } else {
            let ghost pre = built@;
            built.push(c);
            proof {
                assert(str_scan(t, i as int) == scan_prepend(seq![t[i as int]], str_scan(t, i + 1)));
                lemma_scan_prepend_assoc(pre, seq![t[i as int]], str_scan(t, i + 1));
                assert(pre + seq![t[i as int]] =~= built@);
            }
            i = i + 1;
        }
    }
}

} // verus!
