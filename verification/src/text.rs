//! Line-oriented text handling: splitting a file's contents into lines and
//! trimming the blanks around a line. Both rule files and process listings
//! are line-oriented, so the split and its specification live here.

use vstd::prelude::*;
use vstd::string::*;

verus! {

/// The blank characters stripped from the ends of a line: the ASCII blanks
/// that line-oriented rule files contain.
pub open spec fn is_space(c: char) -> bool {
    c == ' ' || c == '\t' || c == '\r'
}

/// `s` without its leading blanks.
pub open spec fn trim_front(s: Seq<char>) -> Seq<char>
    decreases s.len(),
{
    if s.len() > 0 && is_space(s[0]) {
        trim_front(s.drop_first())
    } else {
        s
    }
}

/// `s` without its trailing blanks.
pub open spec fn trim_back(s: Seq<char>) -> Seq<char>
    decreases s.len(),
{
    if s.len() > 0 && is_space(s.last()) {
        trim_back(s.drop_last())
    } else {
        s
    }
}

/// `s` without blanks on either end.
pub open spec fn trim_spec(s: Seq<char>) -> Seq<char> {
    trim_back(trim_front(s))
}

/// The index of the first line break in `s`, or `s.len()` if there is none.
pub open spec fn line_break(s: Seq<char>) -> nat
    decreases s.len(),
{
    if s.len() == 0 {
        0
    } else if s[0] == '\n' {
        0
    } else {
        1 + line_break(s.drop_first())
    }
}

/// The lines of `s`: maximal break-free stretches, with a final line break
/// not opening a further empty line.
pub open spec fn split_lines(s: Seq<char>) -> Seq<Seq<char>>
    decreases s.len(),
{
    if s.len() == 0 {
        seq![]
    } else {
        let k = line_break(s) as int;
        let line = s.subrange(0, k);
        let rest = if k < s.len() {
            s.subrange(k + 1, s.len() as int)
        } else {
            Seq::empty()
        };
        seq![line] + split_lines(rest)
    }
}

/// `line_break` points at a break, or at the end, with none before it.
pub proof fn lemma_line_break_bounds(s: Seq<char>)
    ensures
        line_break(s) <= s.len(),
        line_break(s) < s.len() ==> s[line_break(s) as int] == '\n',
        forall|j: int| 0 <= j < line_break(s) ==> s[j] != '\n',
    decreases s.len(),
{
    if s.len() > 0 && s[0] != '\n' {
        lemma_line_break_bounds(s.drop_first());
        assert forall|j: int| 0 <= j < line_break(s) implies s[j] != '\n' by {
            if j >= 1 {
                assert(s[j] == s.drop_first()[j - 1]);
            }
        }
    }
}

/// Any position with no break before it, holding a break or ending the
/// string, is the first break position.
pub proof fn lemma_line_break_unique(s: Seq<char>, k: int)
    requires
        0 <= k <= s.len(),
        forall|j: int| 0 <= j < k ==> s[j] != '\n',
        k == s.len() || s[k] == '\n',
    ensures
        line_break(s) == k,
{
    lemma_line_break_bounds(s);
    let m = line_break(s) as int;
    if m < k {
        assert(s[m] != '\n');
    } else if k < m {
        assert(s[k] != '\n');
    }
}

/// Checks whether `c` is one of the blanks trimmed from rule lines.
pub fn is_space_char(c: char) -> (r: bool)
    ensures
        r == is_space(c),
{
    c == ' ' || c == '\t' || c == '\r'
}

/// Dropping `a` leading blanks of `s`, down to a non-blank or the end,
/// is what `trim_front` does.
proof fn lemma_trim_front_at(s: Seq<char>, a: int)
    requires
        0 <= a <= s.len(),
        forall|j: int| 0 <= j < a ==> is_space(s[j]),
        a == s.len() || !is_space(s[a]),
    ensures
        trim_front(s) == s.subrange(a, s.len() as int),
    decreases a,
{
    if a == 0 {
        assert(s.subrange(0, s.len() as int) =~= s);
    } else {
        lemma_trim_front_at(s.drop_first(), a - 1);
        assert(s.drop_first().subrange(a - 1, s.drop_first().len() as int) =~= s.subrange(
            a,
            s.len() as int,
        ));
    }
}

/// Dropping the trailing blanks of `s`, back to a non-blank or the start,
/// is what `trim_back` does.
proof fn lemma_trim_back_at(s: Seq<char>, b: int)
    requires
        0 <= b <= s.len(),
        forall|j: int| b <= j < s.len() ==> is_space(s[j]),
        b == 0 || !is_space(s[b - 1]),
    ensures
        trim_back(s) == s.subrange(0, b),
    decreases s.len() - b,
{
    if b == s.len() {
        assert(s.subrange(0, s.len() as int) =~= s);
    } else {
        lemma_trim_back_at(s.drop_last(), b);
        assert(s.drop_last().subrange(0, b) =~= s.subrange(0, b));
    }
}

/// `line` without blanks on either end.
pub fn trim(line: &str) -> (r: &str)
    ensures
        r@ == trim_spec(line@),
{
    let n = line.unicode_len();
    let mut a: usize = 0;
    while a < n && is_space_char(line.get_char(a))
        invariant
            0 <= a <= n,
            n == line@.len(),
            forall|j: int| 0 <= j < a ==> is_space(line@[j]),
        decreases n - a,
    {
        a = a + 1;
    }
    proof {
        lemma_trim_front_at(line@, a as int);
    }
    let mut b: usize = n;
    while b > a && is_space_char(line.get_char(b - 1))
        invariant
            a <= b <= n,
            n == line@.len(),
            forall|j: int| b <= j < n ==> is_space(line@[j]),
        decreases b,
    {
        b = b - 1;
    }
    let r = line.substring_char(a, b);
    proof {
        let t = line@.subrange(a as int, n as int);
        lemma_trim_back_at(t, b - a);
        assert(t.subrange(0, b - a) =~= line@.subrange(a as int, b as int));
    }
    r
}

/// The lines of `content`, as `split_lines` describes them.
pub fn split_into_lines(content: &str) -> (lines: Vec<String>)
    ensures
        lines.deep_view() == split_lines(content@),
{
    let n = content.unicode_len();
    let mut lines: Vec<String> = Vec::new();
    let mut pos: usize = 0;
    proof {
        assert(content@.subrange(0, n as int) =~= content@);
        assert(lines.deep_view() =~~= Seq::<Seq<char>>::empty());
        assert(lines.deep_view() + split_lines(content@.subrange(pos as int, n as int))
            =~~= split_lines(content@));
    }
    while pos < n
        invariant
            0 <= pos <= n,
            n == content@.len(),
            lines.deep_view() + split_lines(content@.subrange(pos as int, n as int))
                =~~= split_lines(content@),
        decreases n - pos,
    {
        let mut j: usize = pos;
        while j < n && !(content.get_char(j) == '\n')
            invariant
                pos <= j <= n,
                n == content@.len(),
                forall|p: int| pos <= p < j ==> content@[p] != '\n',
            decreases n - j,
        {
            j = j + 1;
        }
        let line = content.substring_char(pos, j);
        let ghost old_lines = lines.deep_view();
        let ghost rem = content@.subrange(pos as int, n as int);
        let ghost new_rem = if j < n {
            content@.subrange(j + 1, n as int)
        } else {
            Seq::<char>::empty()
        };
        proof {
            assert forall|p: int| 0 <= p < j - pos implies rem[p] != '\n' by {
                assert(rem[p] == content@[pos + p]);
            }
            if (j as int) - (pos as int) < rem.len() {
                assert(rem[j - pos] == content@[j as int]);
            }
            lemma_line_break_unique(rem, j - pos);
            assert(rem.subrange(0, j - pos) =~= line@);
            if j < n {
                assert(rem.subrange(j - pos + 1, rem.len() as int) =~= new_rem);
            }
            assert(split_lines(rem) =~~= seq![line@] + split_lines(new_rem));
        }
        let owned = line.to_owned();
        lines.push(owned);
        proof {
            assert(lines.deep_view() =~~= old_lines + seq![line@]);
            assert(old_lines + (seq![line@] + split_lines(new_rem)) =~~= (old_lines + seq![
                line@,
            ]) + split_lines(new_rem));
        }
        if j < n {
            pos = j + 1;
        } else {
            pos = n;
            proof {
                assert(content@.subrange(n as int, n as int) =~= new_rem);
            }
        }
    }
    proof {
        assert(content@.subrange(n as int, n as int) =~= Seq::<char>::empty());
        assert(lines.deep_view() =~~= split_lines(content@));
    }
    lines
}

} // verus!
