//! The state-file text: rendering a session record as JSON and reading it
//! back.
//!
//! The record is written as one JSON object with the five fields in a fixed
//! order, numbers in canonical decimal and the path as an escaped JSON
//! string; `spec_render` is that text, exactly.  Reading accepts precisely
//! the texts this library writes: `from_json` returns the unique record a
//! text renders, and an error for every other text, so persisting a record
//! and loading it back always yields the record again.

use vstd::prelude::*;

use crate::digits::dec_parseable;
use crate::digits::dec_value;
use crate::digits::digit_run_end;
use crate::digits::is_digit_char;
use crate::digits::lemma_dec_at;
use crate::digits::parse_dec_at;
use crate::digits::push_dec_u64;
use crate::digits::spec_dec;
use crate::escape::lemma_scan_complete;
use crate::escape::lemma_scan_sound;
use crate::escape::parse_str_at;
use crate::escape::push_escaped;
use crate::escape::spec_escape;
use crate::escape::str_scan;
use crate::seqs::lemma_concat_parts;
use crate::seqs::lemma_split_prefix;
use crate::session::PomodoroState;
use crate::session::SessionData;
use crate::text::append_str_chars;
use crate::text::chars_to_string;
use crate::text::match_at;
use crate::text::str_to_chars;
use vstd::string::StrSliceExecFns;

verus! {

/// Failures of the session store: the file could not be read or written,
/// or its content is not a record this library writes.
#[derive(Clone, Copy, Debug, PartialEq, Eq, Structural)]
pub enum StateError {
    IoError,
    DecodeError,
}

/// The spelling of a boolean in the state file.
pub open spec fn spec_bool(b: bool) -> Seq<char> {
    if b {
        "true"@
    } else {
        "false"@
    }
}

/// The exact text of a persisted session record.
pub open spec fn spec_render(m: SessionData) -> Seq<char> {
    "{\"start_time\":"@ + spec_dec(m.start_time as nat) + ",\"work_duration\":"@ + spec_dec(
        m.work_duration as nat,
    ) + ",\"break_duration\":"@ + spec_dec(m.break_duration as nat) + ",\"is_working\":"@
        + spec_bool(m.is_working) + ",\"filepath\":\""@ + spec_escape(m.filepath) + "\"}"@
}

/// Where a text is the rendering of some record, every field of that
/// record can be read back off the text itself: the separators sit at
/// positions the text determines, the numbers are the values of the digit
/// runs there, and the path is what the string scan returns.
#[verifier::rlimit(100)]
pub proof fn lemma_render_fields(t: Seq<char>, m: SessionData)
    requires
        spec_render(m) == t,
    ensures
        ({
            let i1 = "{\"start_time\":"@.len() as int;
            let e1 = digit_run_end(t, i1);
            let i2 = e1 + ",\"work_duration\":"@.len();
            let e2 = digit_run_end(t, i2);
            let i3 = e2 + ",\"break_duration\":"@.len();
            let e3 = digit_run_end(t, i3);
            let i4 = e3 + ",\"is_working\":"@.len();
            let i5 = i4 + spec_bool(m.is_working).len() + ",\"filepath\":\""@.len();
            &&& 0 <= i1 <= e1 <= i2 <= e2 <= i3 <= e3 <= i4 <= i5 <= t.len()
            &&& t.subrange(0, i1) == "{\"start_time\":"@
            &&& dec_parseable(t, i1)
            &&& dec_value(t, i1) == m.start_time
            &&& t.subrange(e1, i2) == ",\"work_duration\":"@
            &&& dec_parseable(t, i2)
            &&& dec_value(t, i2) == m.work_duration
            &&& t.subrange(e2, i3) == ",\"break_duration\":"@
            &&& dec_parseable(t, i3)
            &&& dec_value(t, i3) == m.break_duration
            &&& t.subrange(e3, i4) == ",\"is_working\":"@
            &&& t.subrange(i4, i4 + spec_bool(m.is_working).len() as int) == spec_bool(
                m.is_working,
            )
            &&& t.subrange(i4 + spec_bool(m.is_working).len() as int, i5) == ",\"filepath\":\""@
            &&& str_scan(t, i5) == Some((m.filepath, t.len() - 1))
            &&& t.len() >= 1
            &&& t[t.len() - 1] == '}'
        }),
{
    reveal_strlit("{\"start_time\":");
    reveal_strlit(",\"work_duration\":");
    reveal_strlit(",\"break_duration\":");
    reveal_strlit(",\"is_working\":");
    reveal_strlit(",\"filepath\":\"");
    reveal_strlit("true");
    reveal_strlit("false");
    reveal_strlit("\"}");
    let l1 = "{\"start_time\":"@;
    let d1 = spec_dec(m.start_time as nat);
    let l2 = ",\"work_duration\":"@;
    let d2 = spec_dec(m.work_duration as nat);
    let l3 = ",\"break_duration\":"@;
    let d3 = spec_dec(m.break_duration as nat);
    let l4 = ",\"is_working\":"@;
    let bo = spec_bool(m.is_working);
    let l5 = ",\"filepath\":\""@;
    let es = spec_escape(m.filepath);
    let qb = "\"}"@;
    let s10 = es + qb;
    let s9 = l5 + s10;
    let s8 = bo + s9;
    let s7 = l4 + s8;
    let s6 = d3 + s7;
    let s5 = l3 + s6;
    let s4 = d2 + s5;
    let s3 = l2 + s4;
    let s2 = d1 + s3;
    assert(t =~= l1 + s2);
    assert(t.subrange(0, t.len() as int) =~= t);
    lemma_split_prefix(t, 0, l1, s2);
    let i1 = l1.len() as int;
    lemma_split_prefix(t, i1, d1, s3);
    let e1 = i1 + d1.len();
    assert(t[e1] == t.subrange(e1, t.len() as int)[0]);
    assert(s3[0] == l2[0]);
    assert(!is_digit_char(t[e1]));
    lemma_dec_at(t, i1, m.start_time);
    lemma_split_prefix(t, e1, l2, s4);
    let i2 = e1 + l2.len();
    lemma_split_prefix(t, i2, d2, s5);
    let e2 = i2 + d2.len();
    assert(t[e2] == t.subrange(e2, t.len() as int)[0]);
    assert(s5[0] == l3[0]);
    assert(!is_digit_char(t[e2]));
    lemma_dec_at(t, i2, m.work_duration);
    lemma_split_prefix(t, e2, l3, s6);
    let i3 = e2 + l3.len();
    lemma_split_prefix(t, i3, d3, s7);
    let e3 = i3 + d3.len();
    assert(t[e3] == t.subrange(e3, t.len() as int)[0]);
    assert(s7[0] == l4[0]);
    assert(!is_digit_char(t[e3]));
    lemma_dec_at(t, i3, m.break_duration);
    lemma_split_prefix(t, e3, l4, s8);
    let i4 = e3 + l4.len();
    lemma_split_prefix(t, i4, bo, s9);
    let i4b = i4 + bo.len();
    lemma_split_prefix(t, i4b, l5, s10);
    let i5 = i4b + l5.len();
    assert(t.subrange(i5, t.len() as int) == es + seq!['"'] + seq!['}']) by {
        assert(es + qb =~= es + seq!['"'] + seq!['}']);
    }
    lemma_scan_complete(t, i5, m.filepath, seq!['}']);
    assert(i5 + es.len() + 2 == t.len());
    assert(t[t.len() - 1] == s10[s10.len() - 1]);
    assert(s10[s10.len() - 1] == qb[1]);
}

/// No two different records render to the same text.
pub proof fn lemma_render_injective(m1: SessionData, m2: SessionData)
    requires
        spec_render(m1) == spec_render(m2),
    ensures
        m1 == m2,
{
    let t = spec_render(m1);
    lemma_render_fields(t, m1);
    lemma_render_fields(t, m2);
    reveal_strlit("{\"start_time\":");
    reveal_strlit(",\"work_duration\":");
    reveal_strlit(",\"break_duration\":");
    reveal_strlit(",\"is_working\":");
    reveal_strlit(",\"filepath\":\"");
    reveal_strlit("true");
    reveal_strlit("false");
    let i1 = "{\"start_time\":"@.len() as int;
    let e1 = digit_run_end(t, i1);
    let i2 = e1 + ",\"work_duration\":"@.len();
    let e2 = digit_run_end(t, i2);
    let i3 = e2 + ",\"break_duration\":"@.len();
    let e3 = digit_run_end(t, i3);
    let i4 = e3 + ",\"is_working\":"@.len();
    if m1.is_working != m2.is_working {
        assert(t.subrange(i4, i4 + 4)[0] == t.subrange(i4, i4 + 5)[0]);
        assert(false);
    }
    assert(m1.is_working == m2.is_working);
    let i5 = i4 + spec_bool(m1.is_working).len() + ",\"filepath\":\""@.len();
    assert(Some((m1.filepath, t.len() - 1)) == Some((m2.filepath, t.len() - 1)));
    assert(m1.filepath == m2.filepath);
}

/// A boolean spelling read at one place in a text names one boolean.
proof fn lemma_bool_at(t: Seq<char>, i: int, b1: bool, b2: bool)
    requires
        0 <= i,
        i + spec_bool(b1).len() <= t.len(),
        i + spec_bool(b2).len() <= t.len(),
        t.subrange(i, i + spec_bool(b1).len() as int) == spec_bool(b1),
        t.subrange(i, i + spec_bool(b2).len() as int) == spec_bool(b2),
    ensures
        b1 == b2,
{
    reveal_strlit("true");
    reveal_strlit("false");
    if b1 != b2 {
        assert(t[i] == t.subrange(i, i + spec_bool(b1).len() as int)[0]);
        assert(t[i] == t.subrange(i, i + spec_bool(b2).len() as int)[0]);
        assert(spec_bool(true)[0] == 't');
        assert(spec_bool(false)[0] == 'f');
        assert(false);
    }
}

/// Whether the text at `pos` continues with exactly `pat`; on success the
/// position just past it.
fn expect_lit(chars: &Vec<char>, pos: usize, pat: &str) -> (r: Option<usize>)
    requires
        pos <= chars@.len(),
    ensures
        r matches Some(p2) ==> pos + pat@.len() <= chars@.len() && p2 == pos + pat@.len()
            && chars@.subrange(pos as int, p2 as int) == pat@,
        r is None ==> !(pos + pat@.len() <= chars@.len() && chars@.subrange(
            pos as int,
            pos + pat@.len(),
        ) == pat@),
{
    let n = chars.len();
    let l = pat.unicode_len();
    if match_at(chars, pos, pat) {
        proof {
            assert(pos + l <= n);
        }
        Some(pos + l)
    } else {
        None
    }
}

/// Pieces read at consecutive positions assemble to the rendering of the
/// record they spell.
#[verifier::rlimit(100)]
proof fn lemma_parse_assemble(
    t: Seq<char>,
    n1: u64,
    n2: u64,
    n3: u64,
    bval: bool,
    fp: Seq<char>,
    p1: int,
    e1: int,
    p2: int,
    e2: int,
    p3: int,
    e3: int,
    p4: int,
    p4b: int,
    p5: int,
    p6: int,
)
    requires
        0 <= p1 <= e1 <= p2 <= e2 <= p3 <= e3 <= p4 <= p4b <= p5 <= p6,
        p6 + 1 == t.len(),
        t.subrange(0, p1) == "{\"start_time\":"@,
        t.subrange(p1, e1) == spec_dec(n1 as nat),
        t.subrange(e1, p2) == ",\"work_duration\":"@,
        t.subrange(p2, e2) == spec_dec(n2 as nat),
        t.subrange(e2, p3) == ",\"break_duration\":"@,
        t.subrange(p3, e3) == spec_dec(n3 as nat),
        t.subrange(e3, p4) == ",\"is_working\":"@,
        t.subrange(p4, p4b) == spec_bool(bval),
        t.subrange(p4b, p5) == ",\"filepath\":\""@,
        t.subrange(p5, p6) == spec_escape(fp) + seq!['"'],
        t[p6] == '}',
    ensures
        spec_render(
            SessionData {
                start_time: n1,
                work_duration: n2,
                break_duration: n3,
                is_working: bval,
                filepath: fp,
            },
        ) == t,
{
    reveal_strlit("\"}");
    let len = t.len() as int;
    lemma_concat_parts(t, 0, p1, e1);
    assert(t.subrange(0, e1) == "{\"start_time\":"@ + spec_dec(n1 as nat));
    lemma_concat_parts(t, 0, e1, p2);
    assert(t.subrange(0, p2) == "{\"start_time\":"@ + spec_dec(n1 as nat)
        + ",\"work_duration\":"@);
    lemma_concat_parts(t, 0, p2, e2);
    assert(t.subrange(0, e2) == "{\"start_time\":"@ + spec_dec(n1 as nat)
        + ",\"work_duration\":"@ + spec_dec(n2 as nat));
    lemma_concat_parts(t, 0, e2, p3);
    assert(t.subrange(0, p3) == "{\"start_time\":"@ + spec_dec(n1 as nat)
        + ",\"work_duration\":"@ + spec_dec(n2 as nat) + ",\"break_duration\":"@);
    lemma_concat_parts(t, 0, p3, e3);
    assert(t.subrange(0, e3) == "{\"start_time\":"@ + spec_dec(n1 as nat)
        + ",\"work_duration\":"@ + spec_dec(n2 as nat) + ",\"break_duration\":"@ + spec_dec(
        n3 as nat,
    ));
    lemma_concat_parts(t, 0, e3, p4);
    assert(t.subrange(0, p4) == "{\"start_time\":"@ + spec_dec(n1 as nat)
        + ",\"work_duration\":"@ + spec_dec(n2 as nat) + ",\"break_duration\":"@ + spec_dec(
        n3 as nat,
    ) + ",\"is_working\":"@);
    lemma_concat_parts(t, 0, p4, p4b);
    assert(t.subrange(0, p4b) == "{\"start_time\":"@ + spec_dec(n1 as nat)
        + ",\"work_duration\":"@ + spec_dec(n2 as nat) + ",\"break_duration\":"@ + spec_dec(
        n3 as nat,
    ) + ",\"is_working\":"@ + spec_bool(bval));
    lemma_concat_parts(t, 0, p4b, p5);
    let pref = "{\"start_time\":"@ + spec_dec(n1 as nat) + ",\"work_duration\":"@ + spec_dec(
        n2 as nat,
    ) + ",\"break_duration\":"@ + spec_dec(n3 as nat) + ",\"is_working\":"@ + spec_bool(bval)
        + ",\"filepath\":\""@;
    assert(t.subrange(0, p5) == pref);
    lemma_concat_parts(t, 0, p5, p6);
    lemma_concat_parts(t, 0, p6, len);
    assert(t.subrange(p6, len) =~= seq![t[p6]]);
    assert(t.subrange(0, len) =~= t);
    assert(t == (pref + (spec_escape(fp) + seq!['"'])) + seq!['}']);
    assert(pref + spec_escape(fp) + "\"}"@ =~= (pref + (spec_escape(fp) + seq!['"']))
        + seq!['}']);
}

impl PomodoroState {
    /// The JSON text that persisting this record writes.
    pub fn to_json(&self) -> (s: String)
        ensures
            s@ == spec_render(self@),
    {
        let mut out: Vec<char> = Vec::new();
        append_str_chars(&mut out, "{\"start_time\":");
        push_dec_u64(&mut out, self.start_time);
        append_str_chars(&mut out, ",\"work_duration\":");
        push_dec_u64(&mut out, self.work_duration);
        append_str_chars(&mut out, ",\"break_duration\":");
        push_dec_u64(&mut out, self.break_duration);
        append_str_chars(&mut out, ",\"is_working\":");
        if self.is_working {
            append_str_chars(&mut out, "true");
        } else {
            append_str_chars(&mut out, "false");
        }
        append_str_chars(&mut out, ",\"filepath\":\"");
        let path_chars = str_to_chars(self.filepath.as_str());
        push_escaped(&mut out, &path_chars);
        append_str_chars(&mut out, "\"}");
        chars_to_string(&out)
    }

    /// Reads a session record back from state-file text.  Exactly the texts
    /// this library writes are accepted: where the text renders some record,
    /// that record comes back, so a persisted record always loads as itself;
    /// every other text is a decode error.
    #[verifier::rlimit(100)]
    pub fn from_json(text: &str) -> (r: Result<PomodoroState, StateError>)
        ensures
            r matches Ok(st) ==> spec_render(st@) == text@,
            forall|m: SessionData| spec_render(m) == text@ ==> (r matches Ok(st) && st@ == m),
    {
        let chars = str_to_chars(text);
        let ghost t = text@;
        proof {
            reveal_strlit("{\"start_time\":");
            reveal_strlit(",\"work_duration\":");
            reveal_strlit(",\"break_duration\":");
            reveal_strlit(",\"is_working\":");
            reveal_strlit(",\"filepath\":\"");
            reveal_strlit("true");
            reveal_strlit("false");
            reveal_strlit("\"}");
        }
        let p1 = match expect_lit(&chars, 0, "{\"start_time\":") {
            Some(p) => p,
            None => {
                proof {
                    assert forall|m: SessionData| spec_render(m) != t by {
                        if spec_render(m) == t {
                            lemma_render_fields(t, m);
                        }
                    }
                }
                return Err(StateError::DecodeError);
            },
        };
        let (n1, e1) = match parse_dec_at(&chars, p1) {
            Some(p) => p,
            None => {
                proof {
                    assert forall|m: SessionData| spec_render(m) != t by {
                        if spec_render(m) == t {
                            lemma_render_fields(t, m);
                        }
                    }
                }
                return Err(StateError::DecodeError);
            },
        };
        let p2 = match expect_lit(&chars, e1, ",\"work_duration\":") {
            Some(p) => p,
            None => {
                proof {
                    assert forall|m: SessionData| spec_render(m) != t by {
                        if spec_render(m) == t {
                            lemma_render_fields(t, m);
                        }
                    }
                }
                return Err(StateError::DecodeError);
            },
        };
        let (n2, e2) = match parse_dec_at(&chars, p2) {
            Some(p) => p,
            None => {
                proof {
                    assert forall|m: SessionData| spec_render(m) != t by {
                        if spec_render(m) == t {
                            lemma_render_fields(t, m);
                        }
                    }
                }
                return Err(StateError::DecodeError);
            },
        };
        let p3 = match expect_lit(&chars, e2, ",\"break_duration\":") {
            Some(p) => p,
            None => {
                proof {
                    assert forall|m: SessionData| spec_render(m) != t by {
                        if spec_render(m) == t {
                            lemma_render_fields(t, m);
                        }
                    }
                }
                return Err(StateError::DecodeError);
            },
        };
        let (n3, e3) = match parse_dec_at(&chars, p3) {
            Some(p) => p,
            None => {
                proof {
                    assert forall|m: SessionData| spec_render(m) != t by {
                        if spec_render(m) == t {
                            lemma_render_fields(t, m);
                        }
                    }
                }
                return Err(StateError::DecodeError);
            },
        };
        let p4 = match expect_lit(&chars, e3, ",\"is_working\":") {
            Some(p) => p,
            None => {
                proof {
                    assert forall|m: SessionData| spec_render(m) != t by {
                        if spec_render(m) == t {
                            lemma_render_fields(t, m);
                        }
                    }
                }
                return Err(StateError::DecodeError);
            },
        };
        let (bval, p4b) = match expect_lit(&chars, p4, "true") {
            Some(p) => (true, p),
            None => {
                match expect_lit(&chars, p4, "false") {
                    Some(p) => (false, p),
                    None => {
                        proof {
                            assert forall|m: SessionData| spec_render(m) != t by {
                                if spec_render(m) == t {
                                    lemma_render_fields(t, m);
                                }
                            }
                        }
                        return Err(StateError::DecodeError);
                    },
                }
            },
        };
        let p5 = match expect_lit(&chars, p4b, ",\"filepath\":\"") {
            Some(p) => p,
            None => {
                proof {
                    assert forall|m: SessionData| spec_render(m) != t by {
                        if spec_render(m) == t {
                            lemma_render_fields(t, m);
                            lemma_bool_at(
                                t,
                                p4 as int,
                                bval,
                                m.is_working,
                            );
                        }
                    }
                }
                return Err(StateError::DecodeError);
            },
        };
        let (fp_vec, p6) = match parse_str_at(&chars, p5) {
            Some(p) => p,
            None => {
                proof {
                    assert forall|m: SessionData| spec_render(m) != t by {
                        if spec_render(m) == t {
                            lemma_render_fields(t, m);
                            lemma_bool_at(
                                t,
                                p4 as int,
                                bval,
                                m.is_working,
                            );
                        }
                    }
                }
                return Err(StateError::DecodeError);
            },
        };
        if p6 != chars.len() - 1 || chars.len() == 0 {
            proof {
                assert forall|m: SessionData| spec_render(m) != t by {
                    if spec_render(m) == t {
                        lemma_render_fields(t, m);
                        lemma_bool_at(t, p4 as int, bval, m.is_working);
                    }
                }
            }
            return Err(StateError::DecodeError);
        }
        if chars[p6] != '}' {
            proof {
                assert forall|m: SessionData| spec_render(m) != t by {
                    if spec_render(m) == t {
                        lemma_render_fields(t, m);
                        lemma_bool_at(t, p4 as int, bval, m.is_working);
                    }
                }
            }
            return Err(StateError::DecodeError);
        }
        let filepath = chars_to_string(&fp_vec);
        let st = PomodoroState {
            start_time: n1,
            work_duration: n2,
            break_duration: n3,
            is_working: bval,
            filepath,
        };
        proof {
            lemma_scan_sound(t, p5 as int);
            assert(t.subrange(p4 as int, p4b as int) == spec_bool(bval));
            lemma_parse_assemble(
                t,
                n1,
                n2,
                n3,
                bval,
                fp_vec@,
                p1 as int,
                e1 as int,
                p2 as int,
                e2 as int,
                p3 as int,
                e3 as int,
                p4 as int,
                p4b as int,
                p5 as int,
                p6 as int,
            );
            assert(st@.filepath == fp_vec@);
            assert(spec_render(st@) == t);
            assert forall|m: SessionData| spec_render(m) == t implies st@ == m by {
                lemma_render_injective(st@, m);
            }
        }
        Ok(st)
    }

    /// Interprets what was found at the state path: no file means no active
    /// session, a file with the persisted text means its record, and any
    /// other content is a decode error, never a silent absence.
    pub fn load(contents: &Option<String>) -> (r: Result<Option<PomodoroState>, StateError>)
        ensures
            contents is None ==> (r matches Ok(o) && o is None),
            contents matches Some(text) ==> ((r matches Ok(o) ==> o matches Some(st)
                && spec_render(st@) == text@) && (forall|m: SessionData|
                spec_render(m) == text@ ==> (r matches Ok(o) && o matches Some(st) && st@ == m))
                && (r matches Err(e) ==> e == StateError::DecodeError)),
    {
        match contents {
            None => Ok(None),
            Some(text) => {
                match PomodoroState::from_json(text.as_str()) {
                    Ok(st) => Ok(Some(st)),
                    Err(_) => Err(StateError::DecodeError),
                }
            },
        }
    }

    /// Whether a session is active, judged from what was found at the state
    /// path.  This is false exactly where no file was found: content that
    /// holds a record answers true, and content that holds anything else is
    /// an error, not an inactive session.
    pub fn is_active(contents: &Option<String>) -> (r: Result<bool, StateError>)
        ensures
            contents is None ==> (r matches Ok(b) && b == false),
            contents matches Some(text) ==> (r matches Ok(b) ==> b == true),
            contents matches Some(text) ==> (r matches Err(_) ==> forall|m: SessionData|
                spec_render(m) != text@),
    {
        match PomodoroState::load(contents) {
            Ok(o) => Ok(o.is_some()),
            Err(e) => {
                proof {
                    if let Some(text) = contents {
                        assert forall|m: SessionData| spec_render(m) != text@ by {
                            if spec_render(m) == text@ {
                                assert(false);
                            }
                        }
                    }
                }
                Err(e)
            },
        }
    }
}

} // verus!
