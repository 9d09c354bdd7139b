//! The persisted form of the enforcement record: a single JSON object with
//! one fixed field order and canonical numerals, so that every record has
//! exactly one serialized form. `decode_spec` is the whole story of loading:
//! decoding accepts a string exactly when it is the encoding of some record,
//! and then returns that record.

use vstd::prelude::*;
use vstd::string::*;

use crate::digits::{
    append_u64, dec_digits, is_digit, lemma_dec_digits_props, lemma_parse_u64_complete,
    lemma_parse_u64_sound, parse_u64, parse_u64_at,
};
use crate::state::{AppState, DEFAULT_BREAK_INTERVAL_HOURS, SECS_PER_HOUR};

verus! {

/// Why loading a present state file failed.
#[derive(Debug, Clone, Copy, PartialEq, Eq, Structural)]
pub enum StateError {
    /// The file's contents are not the encoding of any record.
    Malformed,
}

/// The literal `lit` occurs in `s` at position `i`.
pub open spec fn match_at(s: Seq<char>, i: int, lit: Seq<char>) -> bool {
    &&& 0 <= i
    &&& i + lit.len() <= s.len()
    &&& s.subrange(i, i + lit.len() as int) == lit
}

/// An optional timestamp: `null`, or a canonical numeral.
pub open spec fn opt_u64_chars(o: Option<u64>) -> Seq<char> {
    match o {
        None => "null"@,
        Some(n) => dec_digits(n as nat),
    }
}

/// A boolean field value.
pub open spec fn bool_chars(b: bool) -> Seq<char> {
    if b {
        "true"@
    } else {
        "false"@
    }
}

/// The one serialized form of a record.
pub open spec fn encode_spec(st: AppState) -> Seq<char> {
    "{\"blocked_until\":"@ + opt_u64_chars(st.blocked_until)
        + ",\"next_bathroom_break\":"@ + dec_digits(st.next_bathroom_break as nat)
        + ",\"in_bathroom_break\":"@ + bool_chars(st.in_bathroom_break)
        + ",\"bathroom_break_until\":"@ + opt_u64_chars(st.bathroom_break_until) + "}"@
}

/// Parse an optional timestamp at `i`: `null`, or a numeral.
pub open spec fn parse_opt_u64_at(s: Seq<char>, i: int) -> Option<(Option<u64>, int)> {
    if match_at(s, i, "null"@) {
        Some((None, i + "null"@.len() as int))
    } else {
        match parse_u64_at(s, i) {
            Some(p) => Some((Some(p.0), p.1)),
            None => None,
        }
    }
}

/// Parse a boolean at `i`.
pub open spec fn parse_bool_at(s: Seq<char>, i: int) -> Option<(bool, int)> {
    if match_at(s, i, "true"@) {
        Some((true, i + "true"@.len() as int))
    } else if match_at(s, i, "false"@) {
        Some((false, i + "false"@.len() as int))
    } else {
        None
    }
}

/// The record whose encoding the whole of `s` is, if any.
pub open spec fn decode_spec(s: Seq<char>) -> Option<AppState> {
    if !match_at(s, 0, "{\"blocked_until\":"@) {
        None
    } else {
        let i1 = "{\"blocked_until\":"@.len() as int;
        match parse_opt_u64_at(s, i1) {
            None => None,
            Some(p1) => {
                let blocked = p1.0;
                if !match_at(s, p1.1, ",\"next_bathroom_break\":"@) {
                    None
                } else {
                    let i3 = p1.1 + ",\"next_bathroom_break\":"@.len();
                    match parse_u64_at(s, i3) {
                        None => None,
                        Some(p2) => {
                            let next = p2.0;
                            if !match_at(s, p2.1, ",\"in_bathroom_break\":"@) {
                                None
                            } else {
                                let i5 = p2.1 + ",\"in_bathroom_break\":"@.len();
                                match parse_bool_at(s, i5) {
                                    None => None,
                                    Some(p3) => {
                                        let inb = p3.0;
                                        if !match_at(s, p3.1, ",\"bathroom_break_until\":"@) {
                                            None
                                        } else {
                                            let i7 = p3.1 + ",\"bathroom_break_until\":"@.len();
                                            match parse_opt_u64_at(s, i7) {
                                                None => None,
                                                Some(p4) => {
                                                    let until = p4.0;
                                                    if match_at(s, p4.1, "}"@) && p4.1 + "}"@.len()
                                                        == s.len() {
                                                        Some(AppState {
                                                            blocked_until: blocked,
                                                            next_bathroom_break: next,
                                                            in_bathroom_break: inb,
                                                            bathroom_break_until: until,
                                                        })
                                                    } else {
                                                        None
                                                    }
                                                },
                                            }
                                        }
                                    },
                                }
                            }
                        },
                    }
                }
            },
        }
    }
}

/// Saving and reloading loses nothing: decoding the encoding of any record
/// yields that record again, timestamps bit for bit.
pub proof fn lemma_save_load_roundtrip(st: AppState)
    ensures
        decode_spec(encode_spec(st)) == Some(st),
{
    reveal_strlit("{\"blocked_until\":");
    reveal_strlit(",\"next_bathroom_break\":");
    reveal_strlit(",\"in_bathroom_break\":");
    reveal_strlit(",\"bathroom_break_until\":");
    reveal_strlit("}");
    reveal_strlit("null");
    reveal_strlit("true");
    reveal_strlit("false");
    let s = encode_spec(st);
    let a = "{\"blocked_until\":"@;
    let o1 = opt_u64_chars(st.blocked_until);
    let b = ",\"next_bathroom_break\":"@;
    let d2 = dec_digits(st.next_bathroom_break as nat);
    let c = ",\"in_bathroom_break\":"@;
    let bl = bool_chars(st.in_bathroom_break);
    let d = ",\"bathroom_break_until\":"@;
    let o2 = opt_u64_chars(st.bathroom_break_until);
    let e = "}"@;
    let i1 = a.len() as int;
    let i2 = i1 + o1.len();
    let i3 = i2 + b.len();
    let i4 = i3 + d2.len();
    let i5 = i4 + c.len();
    let i6 = i5 + bl.len();
    let i7 = i6 + d.len();
    let i8 = i7 + o2.len();
    assert(s.len() == i8 + 1);
    assert(s.subrange(0, i1) =~= a);
    assert(s.subrange(i1, i2) =~= o1);
    assert(s.subrange(i2, i3) =~= b);
    assert(s.subrange(i3, i4) =~= d2);
    assert(s.subrange(i4, i5) =~= c);
    assert(s.subrange(i5, i6) =~= bl);
    assert(s.subrange(i6, i7) =~= d);
    assert(s.subrange(i7, i8) =~= o2);
    assert(s.subrange(i8, i8 + 1) =~= e);
    assert(match_at(s, 0, a));
    lemma_roundtrip_opt(s, i1, st.blocked_until, ',');
    assert(parse_opt_u64_at(s, i1) == Some((st.blocked_until, i2)));
    assert(match_at(s, i2, b));
    lemma_dec_digits_props(st.next_bathroom_break as nat);
    assert(s[i4] == c[0]);
    lemma_parse_u64_complete(s, i3, st.next_bathroom_break);
    assert(parse_u64_at(s, i3) == Some((st.next_bathroom_break, i4)));
    assert(match_at(s, i4, c));
    if st.in_bathroom_break {
        assert(s.subrange(i5, i5 + "true"@.len()) =~= "true"@);
        assert(parse_bool_at(s, i5) == Some((true, i6)));
    } else {
        if match_at(s, i5, "true"@) {
            assert(s.subrange(i5, i5 + "true"@.len())[0] == 't');
            assert(s[i5] == 'f');
        }
        assert(s.subrange(i5, i5 + "false"@.len()) =~= "false"@);
        assert(parse_bool_at(s, i5) == Some((false, i6)));
    }
    assert(match_at(s, i6, d));
    lemma_roundtrip_opt(s, i7, st.bathroom_break_until, '}');
    assert(parse_opt_u64_at(s, i7) == Some((st.bathroom_break_until, i8)));
    assert(match_at(s, i8, e));
}

/// A successful optional-timestamp parse consumed exactly the serialized
/// form of its result.
proof fn lemma_parse_opt_sound(s: Seq<char>, i: int)
    requires
        0 <= i <= s.len(),
        parse_opt_u64_at(s, i) is Some,
    ensures
        ({
            let (o, j) = parse_opt_u64_at(s, i)->0;
            &&& i <= j <= s.len()
            &&& j - i == opt_u64_chars(o).len()
            &&& s.subrange(i, j) == opt_u64_chars(o)
        }),
{
    if match_at(s, i, "null"@) {
    } else {
        lemma_parse_u64_sound(s, i);
    }
}

/// Decoding accepts nothing but encodings: a string some record decodes
/// from is that record's one serialized form. With the round-trip law this
/// makes decoding succeed exactly on the encodings.
pub proof fn lemma_decode_exact(s: Seq<char>, st: AppState)
    requires
        decode_spec(s) == Some(st),
    ensures
        s == encode_spec(st),
{
    reveal_strlit("}");
    let a = "{\"blocked_until\":"@;
    let b = ",\"next_bathroom_break\":"@;
    let c = ",\"in_bathroom_break\":"@;
    let d = ",\"bathroom_break_until\":"@;
    let e = "}"@;
    let i1 = a.len() as int;
    let p1 = parse_opt_u64_at(s, i1)->0;
    let o1 = opt_u64_chars(p1.0);
    let i2 = p1.1;
    lemma_parse_opt_sound(s, i1);
    let i3 = i2 + b.len();
    let p2 = parse_u64_at(s, i3)->0;
    let d2 = dec_digits(p2.0 as nat);
    let i4 = p2.1;
    lemma_parse_u64_sound(s, i3);
    let i5 = i4 + c.len();
    let p3 = parse_bool_at(s, i5)->0;
    let bl = bool_chars(p3.0);
    let i6 = p3.1;
    assert(s.subrange(i5, i6) == bl && i6 - i5 == bl.len()) by {
        if match_at(s, i5, "true"@) {
        }
    }
    let i7 = i6 + d.len();
    let p4 = parse_opt_u64_at(s, i7)->0;
    let o2 = opt_u64_chars(p4.0);
    let i8 = p4.1;
    lemma_parse_opt_sound(s, i7);
    assert(match_at(s, i8, e) && i8 + e.len() == s.len());
    assert(s.len() == i8 + 1);
    assert(st == AppState {
        blocked_until: p1.0,
        next_bathroom_break: p2.0,
        in_bathroom_break: p3.0,
        bathroom_break_until: p4.0,
    });
    let enc = encode_spec(st);
    assert(enc.len() == s.len());
    assert(enc.subrange(0, i1) =~= a);
    assert(enc.subrange(i1, i2) =~= o1);
    assert(enc.subrange(i2, i3) =~= b);
    assert(enc.subrange(i3, i4) =~= d2);
    assert(enc.subrange(i4, i5) =~= c);
    assert(enc.subrange(i5, i6) =~= bl);
    assert(enc.subrange(i6, i7) =~= d);
    assert(enc.subrange(i7, i8) =~= o2);
    assert(enc.subrange(i8, i8 + 1) =~= e);
    assert forall|k: int| 0 <= k < s.len() implies s[k] == enc[k] by {
        if k < i1 {
            assert(s[k] == s.subrange(0, i1)[k]);
            assert(enc[k] == enc.subrange(0, i1)[k]);
        } else if k < i2 {
            assert(s[k] == s.subrange(i1, i2)[k - i1]);
            assert(enc[k] == enc.subrange(i1, i2)[k - i1]);
        } else if k < i3 {
            assert(s[k] == s.subrange(i2, i3)[k - i2]);
            assert(enc[k] == enc.subrange(i2, i3)[k - i2]);
        } else if k < i4 {
            assert(s[k] == s.subrange(i3, i4)[k - i3]);
            assert(enc[k] == enc.subrange(i3, i4)[k - i3]);
        } else if k < i5 {
            assert(s[k] == s.subrange(i4, i5)[k - i4]);
            assert(enc[k] == enc.subrange(i4, i5)[k - i4]);
        } else if k < i6 {
            assert(s[k] == s.subrange(i5, i6)[k - i5]);
            assert(enc[k] == enc.subrange(i5, i6)[k - i5]);
        } else if k < i7 {
            assert(s[k] == s.subrange(i6, i7)[k - i6]);
            assert(enc[k] == enc.subrange(i6, i7)[k - i6]);
        } else if k < i8 {
            assert(s[k] == s.subrange(i7, i8)[k - i7]);
            assert(enc[k] == enc.subrange(i7, i8)[k - i7]);
        } else {
            assert(s[k] == s.subrange(i8, i8 + 1)[k - i8]);
            assert(enc[k] == enc.subrange(i8, i8 + 1)[k - i8]);
        }
    }
    assert(s =~= enc);
}

/// An optional timestamp placed at `i` and closed by `close` parses back to
/// itself.
proof fn lemma_roundtrip_opt(s: Seq<char>, i: int, o: Option<u64>, close: char)
    requires
        0 <= i,
        i + opt_u64_chars(o).len() < s.len(),
        s.subrange(i, i + opt_u64_chars(o).len()) == opt_u64_chars(o),
        s[i + opt_u64_chars(o).len()] == close,
        !is_digit(close),
    ensures
        parse_opt_u64_at(s, i) == Some((o, i + opt_u64_chars(o).len())),
{
    reveal_strlit("null");
    match o {
        None => {
            assert(match_at(s, i, "null"@));
        },
        Some(n) => {
            lemma_dec_digits_props(n as nat);
            let ds = dec_digits(n as nat);
            if match_at(s, i, "null"@) {
                assert(s.subrange(i, i + 4)[0] == 'n');
                assert(s[i] == ds[0]);
                assert(is_digit(ds[0]));
            }
            lemma_parse_u64_complete(s, i, n);
        },
    }
}

/// Append `o` in its serialized form.
fn append_opt_u64(out: &mut String, o: &Option<u64>)
    ensures
        final(out)@ == old(out)@ + opt_u64_chars(*o),
{
    match o {
        None => {
            out.append("null");
        },
        Some(n) => {
            append_u64(out, *n);
        },
    }
}

/// Check for `lit` at `pos`; on success the position just past it.
fn expect_lit(s: &str, pos: usize, lit: &str) -> (r: Option<usize>)
    requires
        pos <= s@.len(),
    ensures
        match r {
            Some(j) => match_at(s@, pos as int, lit@) && j == pos + lit@.len() && j <= s@.len(),
            None => !match_at(s@, pos as int, lit@),
        },
{
    let n = s.unicode_len();
    let m = lit.unicode_len();
    if m > n - pos {
        return None;
    }
    let mut k: usize = 0;
    while k < m
        invariant
            0 <= k <= m,
            m == lit@.len(),
            n == s@.len(),
            pos + m <= n,
            forall|p: int| 0 <= p < k ==> s@[pos + p] == lit@[p],
        decreases m - k,
    {
        if !(s.get_char(pos + k) == lit.get_char(k)) {
            proof {
                assert(s@.subrange(pos as int, pos + m) != lit@) by {
                    assert(s@.subrange(pos as int, pos + m)[k as int] == s@[pos + k]);
                }
            }
            return None;
        }
        k = k + 1;
    }
    proof {
        assert(s@.subrange(pos as int, pos + m) =~= lit@);
    }
    Some(pos + m)
}

/// Parse an optional timestamp at `pos`, as `parse_opt_u64_at` describes.
fn parse_opt_u64(s: &str, pos: usize) -> (r: Option<(Option<u64>, usize)>)
    requires
        pos <= s@.len(),
    ensures
        match r {
            Some(p) => parse_opt_u64_at(s@, pos as int) == Some((p.0, p.1 as int)) && p.1
                <= s@.len(),
            None => parse_opt_u64_at(s@, pos as int) is None,
        },
{
    match expect_lit(s, pos, "null") {
        Some(j) => Some((None, j)),
        None => match parse_u64(s, pos) {
            Some(p) => Some((Some(p.0), p.1)),
            None => None,
        },
    }
}

/// Parse a boolean at `pos`, as `parse_bool_at` describes.
fn parse_bool(s: &str, pos: usize) -> (r: Option<(bool, usize)>)
    requires
        pos <= s@.len(),
    ensures
        match r {
            Some(p) => parse_bool_at(s@, pos as int) == Some((p.0, p.1 as int)) && p.1
                <= s@.len(),
            None => parse_bool_at(s@, pos as int) is None,
        },
{
    match expect_lit(s, pos, "true") {
        Some(j) => Some((true, j)),
        None => match expect_lit(s, pos, "false") {
            Some(j) => Some((false, j)),
            None => None,
        },
    }
}

/// The record whose encoding `s` is, or nothing: exactly `decode_spec`.
pub fn decode_state(s: &str) -> (r: Option<AppState>)
    ensures
        r == decode_spec(s@),
{
    let i1 = match expect_lit(s, 0, "{\"blocked_until\":") {
        Some(j) => j,
        None => {
            return None;
        },
    };
    let (blocked, i2) = match parse_opt_u64(s, i1) {
        Some(p) => p,
        None => {
            return None;
        },
    };
    let i3 = match expect_lit(s, i2, ",\"next_bathroom_break\":") {
        Some(j) => j,
        None => {
            return None;
        },
    };
    let (next, i4) = match parse_u64(s, i3) {
        Some(p) => p,
        None => {
            return None;
        },
    };
    let i5 = match expect_lit(s, i4, ",\"in_bathroom_break\":") {
        Some(j) => j,
        None => {
            return None;
        },
    };
    let (inb, i6) = match parse_bool(s, i5) {
        Some(p) => p,
        None => {
            return None;
        },
    };
    let i7 = match expect_lit(s, i6, ",\"bathroom_break_until\":") {
        Some(j) => j,
        None => {
            return None;
        },
    };
    let (until, i8) = match parse_opt_u64(s, i7) {
        Some(p) => p,
        None => {
            return None;
        },
    };
    let i9 = match expect_lit(s, i8, "}") {
        Some(j) => j,
        None => {
            return None;
        },
    };
    if i9 != s.unicode_len() {
        return None;
    }
    Some(AppState { blocked_until: blocked, next_bathroom_break: next, in_bathroom_break: inb,
        bathroom_break_until: until })
}

impl AppState {
    /// The serialized form of this record, to be written whole to the state
    /// file (write-then-rename, so a reader never sees a partial record).
    pub fn save(&self) -> (out: String)
        ensures
            out@ == encode_spec(*self),
    {
        let mut out = String::new();
        out.append("{\"blocked_until\":");
        append_opt_u64(&mut out, &self.blocked_until);
        out.append(",\"next_bathroom_break\":");
        append_u64(&mut out, self.next_bathroom_break);
        out.append(",\"in_bathroom_break\":");
        if self.in_bathroom_break {
            out.append("true");
        } else {
            out.append("false");
        }
        out.append(",\"bathroom_break_until\":");
        append_opt_u64(&mut out, &self.bathroom_break_until);
        out.append("}");
        proof {
            assert(out@ =~= encode_spec(*self));
        }
        out
    }

    /// Reload a record from the state file's contents: a missing file
    /// (`None`) yields a fresh record whose first break is due after the
    /// default interval; present contents must decode, and anything else is
    /// an error, never silently replaced with defaults.
    pub fn load(content: Option<&str>, now: u64) -> (r: Result<AppState, StateError>)
        requires
            now + DEFAULT_BREAK_INTERVAL_HOURS * SECS_PER_HOUR <= u64::MAX,
        ensures
            match content {
                None => r == Ok::<AppState, StateError>(AppState::spec_fresh(now)),
                Some(c) => match r {
                    Ok(st) => decode_spec(c@) == Some(st),
                    Err(e) => decode_spec(c@) is None && e == StateError::Malformed,
                },
            },
    {
        match content {
            None => Ok(AppState::default_with_next_break(now)),
            Some(c) => match decode_state(c) {
                Some(st) => Ok(st),
                None => Err(StateError::Malformed),
            },
        }
    }
}

} // verus!
