//! Decimal numerals: printing a `u64` as digits and parsing digits back.
//! The printed form is canonical (no sign, no leading zero), and parsing is
//! proved to accept exactly the canonical numerals, which is what makes the
//! persisted state format round-trip losslessly.

use vstd::prelude::*;
use vstd::string::*;

verus! {

/// Whether `c` is a decimal digit.
pub open spec fn is_digit(c: char) -> bool {
    c == '0' || c == '1' || c == '2' || c == '3' || c == '4' || c == '5' || c == '6' || c == '7'
        || c == '8' || c == '9'
}

/// The value of the digit `c`.
pub open spec fn digit_val(c: char) -> nat {
    if c == '0' {
        0
    } else if c == '1' {
        1
    } else if c == '2' {
        2
    } else if c == '3' {
        3
    } else if c == '4' {
        4
    } else if c == '5' {
        5
    } else if c == '6' {
        6
    } else if c == '7' {
        7
    } else if c == '8' {
        8
    } else {
        9
    }
}

/// The digit with value `d`, for `d < 10`.
pub open spec fn char_of_digit(d: nat) -> char {
    if d == 0 {
        '0'
    } else if d == 1 {
        '1'
    } else if d == 2 {
        '2'
    } else if d == 3 {
        '3'
    } else if d == 4 {
        '4'
    } else if d == 5 {
        '5'
    } else if d == 6 {
        '6'
    } else if d == 7 {
        '7'
    } else if d == 8 {
        '8'
    } else {
        '9'
    }
}

/// The decimal numeral of `n`, most significant digit first.
pub open spec fn dec_digits(n: nat) -> Seq<char>
    decreases n,
{
    if n < 10 {
        seq![char_of_digit(n)]
    } else {
        dec_digits(n / 10).push(char_of_digit(n % 10))
    }
}

/// The value of a digit string, read most significant digit first.
pub open spec fn seq_val(s: Seq<char>) -> nat
    decreases s.len(),
{
    if s.len() == 0 {
        0
    } else {
        seq_val(s.drop_last()) * 10 + digit_val(s.last())
    }
}

/// Every character of `s` is a digit.
pub open spec fn all_digits(s: Seq<char>) -> bool {
    forall|i: int| 0 <= i < s.len() ==> is_digit(s[i])
}

/// `s` is a canonical numeral: nonempty, digits only, no leading zero.
pub open spec fn canonical_digits(s: Seq<char>) -> bool {
    all_digits(s) && s.len() > 0 && (s[0] != '0' || s.len() == 1)
}

/// Printing yields a canonical numeral with the printed value.
pub proof fn lemma_dec_digits_props(n: nat)
    ensures
        canonical_digits(dec_digits(n)),
        seq_val(dec_digits(n)) == n,
    decreases n,
{
    if n < 10 {
        let s = dec_digits(n);
        assert(s.drop_last() =~= Seq::<char>::empty());
        assert(seq_val(Seq::<char>::empty()) == 0);
        assert(seq_val(s) == digit_val(char_of_digit(n)));
    } else {
        lemma_dec_digits_props(n / 10);
        let pre = dec_digits(n / 10);
        let whole = pre.push(char_of_digit(n % 10));
        assert(whole.drop_last() =~= pre);
        assert(seq_val(whole) == (n / 10) * 10 + n % 10);
        assert((n / 10) * 10 + n % 10 == n) by (nonlinear_arith);
        assert(n / 10 >= 1);
        assert(whole[0] == pre[0]);
        if pre[0] == '0' {
            assert(pre.len() == 1);
            assert(pre.drop_last() =~= Seq::<char>::empty());
            assert(seq_val(Seq::<char>::empty()) == 0);
            assert(seq_val(pre) == digit_val(pre[0]));
            assert(false);
        }
    }
}

/// A nonempty digit string without a leading zero has a positive value,
/// at least one for each digit of length.
proof fn lemma_nonzero_lead_val(s: Seq<char>)
    requires
        all_digits(s),
        s.len() > 0,
        s[0] != '0',
    ensures
        seq_val(s) >= 1,
        s.len() > 1 ==> seq_val(s) >= 10,
    decreases s.len(),
{
    if s.len() == 1 {
        assert(digit_val(s[0]) >= 1);
    } else {
        lemma_nonzero_lead_val(s.drop_last());
        assert(s.drop_last()[0] == s[0]);
    }
}

/// A canonical numeral is the printed form of its value: printing is a
/// bijection between numbers and canonical numerals.
pub proof fn lemma_canonical_digits_print(s: Seq<char>)
    requires
        canonical_digits(s),
    ensures
        dec_digits(seq_val(s)) == s,
    decreases s.len(),
{
    if s.len() == 1 {
        assert(s.drop_last() =~= Seq::<char>::empty());
        assert(seq_val(Seq::<char>::empty()) == 0);
        assert(s.last() == s[0]);
        assert(seq_val(s) == digit_val(s[0]));
        assert(char_of_digit(digit_val(s[0])) == s[0]);
        assert(dec_digits(seq_val(s)) =~= s);
    } else {
        let pre = s.drop_last();
        let d = digit_val(s.last());
        assert(pre[0] == s[0]);
        assert(canonical_digits(pre));
        lemma_canonical_digits_print(pre);
        lemma_nonzero_lead_val(pre);
        let v = seq_val(s);
        assert(v == seq_val(pre) * 10 + d);
        assert(v >= 10);
        assert(v / 10 == seq_val(pre) && v % 10 == d) by (nonlinear_arith)
            requires
                v == seq_val(pre) * 10 + d,
                d < 10,
        ;
        assert(dec_digits(v) == dec_digits(seq_val(pre)).push(char_of_digit(d)));
        assert(char_of_digit(digit_val(s.last())) == s.last());
        assert(dec_digits(v) =~= s);
    }
}

/// Appending digits never decreases a numeral's value.
pub proof fn lemma_seq_val_prefix(s: Seq<char>, a: int, b: int)
    requires
        0 <= a <= b <= s.len(),
    ensures
        seq_val(s.subrange(0, a)) <= seq_val(s.subrange(0, b)),
    decreases b - a,
{
    if a < b {
        lemma_seq_val_prefix(s, a, b - 1);
        let p = s.subrange(0, b);
        assert(p.drop_last() =~= s.subrange(0, b - 1));
        assert(seq_val(p) == seq_val(p.drop_last()) * 10 + digit_val(p.last()));
        assert(seq_val(p.drop_last()) * 10 >= seq_val(p.drop_last()));
    }
}

/// The index of the first non-digit at or after `i`, or the end.
pub open spec fn digits_end(s: Seq<char>, i: int) -> int
    decreases s.len() - i,
{
    if i < 0 || i >= s.len() || !is_digit(s[i]) {
        i
    } else {
        digits_end(s, i + 1)
    }
}

/// `digits_end` points past a run of digits to a non-digit or the end.
pub proof fn lemma_digits_end_bounds(s: Seq<char>, i: int)
    requires
        0 <= i <= s.len(),
    ensures
        i <= digits_end(s, i) <= s.len(),
        digits_end(s, i) < s.len() ==> !is_digit(s[digits_end(s, i)]),
        forall|j: int| i <= j < digits_end(s, i) ==> is_digit(s[j]),
    decreases s.len() - i,
{
    if i < s.len() && is_digit(s[i]) {
        lemma_digits_end_bounds(s, i + 1);
    }
}

/// Any position closing a pure digit run at `i` is where the run ends.
pub proof fn lemma_digits_end_unique(s: Seq<char>, i: int, k: int)
    requires
        0 <= i <= k <= s.len(),
        forall|j: int| i <= j < k ==> is_digit(s[j]),
        k == s.len() || !is_digit(s[k]),
    ensures
        digits_end(s, i) == k,
{
    lemma_digits_end_bounds(s, i);
    let m = digits_end(s, i);
    if m < k {
        assert(is_digit(s[m]));
    } else if k < m {
        assert(is_digit(s[k]));
    }
}

/// The parse of a maximal digit run starting at `i`: its value and end
/// position, or nothing if there is no digit at `i`, the run has a leading
/// zero, or the value does not fit.
pub open spec fn parse_u64_at(s: Seq<char>, i: int) -> Option<(u64, int)> {
    let j = digits_end(s, i);
    if j == i {
        None
    } else if s[i] == '0' && j > i + 1 {
        None
    } else if seq_val(s.subrange(i, j)) > u64::MAX {
        None
    } else {
        Some((seq_val(s.subrange(i, j)) as u64, j))
    }
}

/// A successful parse consumed exactly the canonical numeral of its value,
/// and stopped at a non-digit or the end.
pub proof fn lemma_parse_u64_sound(s: Seq<char>, i: int)
    requires
        0 <= i <= s.len(),
        parse_u64_at(s, i) is Some,
    ensures
        ({
            let (v, j) = parse_u64_at(s, i)->0;
            &&& i < j <= s.len()
            &&& s.subrange(i, j) == dec_digits(v as nat)
            &&& j == s.len() || !is_digit(s[j])
        }),
{
    let j = digits_end(s, i);
    lemma_digits_end_bounds(s, i);
    let run = s.subrange(i, j);
    assert(all_digits(run));
    assert(run[0] == s[i]);
    assert(canonical_digits(run));
    lemma_canonical_digits_print(run);
}

/// Where a canonical numeral sits at `i`, closed by a non-digit or the end,
/// the parse finds exactly its value.
pub proof fn lemma_parse_u64_complete(s: Seq<char>, i: int, n: u64)
    requires
        0 <= i,
        i + dec_digits(n as nat).len() <= s.len(),
        s.subrange(i, i + dec_digits(n as nat).len()) == dec_digits(n as nat),
        i + dec_digits(n as nat).len() == s.len() || !is_digit(
            s[i + dec_digits(n as nat).len()],
        ),
    ensures
        parse_u64_at(s, i) == Some((n, i + dec_digits(n as nat).len())),
{
    let ds = dec_digits(n as nat);
    let k = i + ds.len();
    lemma_dec_digits_props(n as nat);
    assert forall|j: int| i <= j < k implies is_digit(s[j]) by {
        assert(s[j] == ds[j - i]);
    }
    lemma_digits_end_unique(s, i, k);
    assert(s.subrange(i, k) == ds);
    assert(s[i] == ds[0]);
}

/// The digit with value `d` as a one-character string.
fn digit_str(d: u64) -> (r: &'static str)
    requires
        d < 10,
    ensures
        r@ =~= seq![char_of_digit(d as nat)],
{
    proof {
        reveal_strlit("0");
        reveal_strlit("1");
        reveal_strlit("2");
        reveal_strlit("3");
        reveal_strlit("4");
        reveal_strlit("5");
        reveal_strlit("6");
        reveal_strlit("7");
        reveal_strlit("8");
        reveal_strlit("9");
    }
    if d == 0 {
        "0"
    } else if d == 1 {
        "1"
    } else if d == 2 {
        "2"
    } else if d == 3 {
        "3"
    } else if d == 4 {
        "4"
    } else if d == 5 {
        "5"
    } else if d == 6 {
        "6"
    } else if d == 7 {
        "7"
    } else if d == 8 {
        "8"
    } else {
        "9"
    }
}

/// Append the decimal numeral of `n` to `out`.
pub fn append_u64(out: &mut String, n: u64)
    ensures
        final(out)@ == old(out)@ + dec_digits(n as nat),
    decreases n,
{
    if n >= 10 {
        append_u64(out, n / 10);
        let ghost mid = out@;
        out.append(digit_str(n % 10));
        proof {
            assert(out@ =~= old(out)@ + dec_digits(n as nat));
        }
    } else {
        out.append(digit_str(n));
        proof {
            assert(out@ =~= old(out)@ + dec_digits(n as nat));
        }
    }
}

/// Whether `c` is a decimal digit.
pub fn is_digit_char(c: char) -> (r: bool)
    ensures
        r == is_digit(c),
{
    c == '0' || c == '1' || c == '2' || c == '3' || c == '4' || c == '5' || c == '6' || c == '7'
        || c == '8' || c == '9'
}

/// The value of the digit `c`.
pub fn digit_value(c: char) -> (r: u64)
    requires
        is_digit(c),
    ensures
        r == digit_val(c),
{
    if c == '0' {
        0
    } else if c == '1' {
        1
    } else if c == '2' {
        2
    } else if c == '3' {
        3
    } else if c == '4' {
        4
    } else if c == '5' {
        5
    } else if c == '6' {
        6
    } else if c == '7' {
        7
    } else if c == '8' {
        8
    } else {
        9
    }
}

/// Parse the maximal digit run of `s` starting at `pos`, exactly as
/// `parse_u64_at` describes it.
pub fn parse_u64(s: &str, pos: usize) -> (r: Option<(u64, usize)>)
    requires
        pos <= s@.len(),
    ensures
        match r {
            Some(p) => parse_u64_at(s@, pos as int) == Some((p.0, p.1 as int)) && pos < p.1
                <= s@.len(),
            None => parse_u64_at(s@, pos as int) is None,
        },
{
    let n = s.unicode_len();
    let mut j: usize = pos;
    while j < n && is_digit_char(s.get_char(j))
        invariant
            pos <= j <= n,
            n == s@.len(),
            forall|p: int| pos <= p < j ==> is_digit(s@[p]),
        decreases n - j,
    {
        j = j + 1;
    }
    proof {
        lemma_digits_end_unique(s@, pos as int, j as int);
    }
    if j == pos {
        return None;
    }
    if s.get_char(pos) == '0' && j > pos + 1 {
        return None;
    }
    let mut acc: u64 = 0;
    let mut i: usize = pos;
    proof {
        assert(s@.subrange(pos as int, pos as int) =~= Seq::<char>::empty());
    }
    while i < j
        invariant
            pos <= i <= j <= n,
            n == s@.len(),
            forall|p: int| pos <= p < j ==> is_digit(s@[p]),
            digits_end(s@, pos as int) == j,
            acc == seq_val(s@.subrange(pos as int, i as int)),
        decreases j - i,
    {
        let c = s.get_char(i);
        let d = digit_value(c);
        let ghost cur = s@.subrange(pos as int, i as int);
        let ghost next = s@.subrange(pos as int, i + 1);
        proof {
            assert(next.drop_last() =~= cur);
            assert(next.last() == c);
        }
        let stepped = match acc.checked_mul(10) {
            Some(m) => m.checked_add(d),
            None => None,
        };
        match stepped {
            Some(v) => {
                acc = v;
            },
            None => {
                proof {
                    assert(seq_val(next) == seq_val(cur) * 10 + digit_val(c));
                    assert(seq_val(next) > u64::MAX);
                    lemma_seq_val_prefix(s@.subrange(pos as int, j as int), i + 1 - pos, (j
                        - pos) as int);
                    assert(s@.subrange(pos as int, j as int).subrange(0, i + 1 - pos) =~= next);
                    assert(s@.subrange(pos as int, j as int).subrange(0, (j - pos) as int)
                        =~= s@.subrange(pos as int, j as int));
                }
                return None;
            },
        }
        i = i + 1;
    }
    Some((acc, j))
}

} // verus!
