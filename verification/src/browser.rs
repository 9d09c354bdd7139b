//! The browser under control: which executable to launch and which process
//! command lines to match when killing. The process listing itself is an
//! operating-system call made by the surrounding program; what stands here
//! is the parsing of its output into process IDs.
//!
//! Caller hazard, preserved from the interface this models: an empty match
//! pattern is handed to the process lister as-is, and typically matches
//! every process on the machine rather than none.

use vstd::prelude::*;
use vstd::string::*;

use crate::digits::{all_digits, digit_value, is_digit, is_digit_char, lemma_seq_val_prefix, seq_val};
use crate::text::{split_into_lines, split_lines, trim, trim_spec};

verus! {

/// Which browser to launch and which processes to police.
#[derive(Debug, Clone)]
pub struct BrowserManager {
    /// The executable to launch.
    pub executable: String,
    /// The pattern the process lister matches command lines against.
    pub process_name: String,
}

impl BrowserManager {
    /// A manager for the given executable and process pattern.
    pub fn new(executable: String, process_name: String) -> (m: BrowserManager)
        ensures
            m.executable == executable,
            m.process_name == process_name,
    {
        BrowserManager { executable, process_name }
    }
}

/// The process ID a listing line carries: its trimmed text read as an
/// unsigned decimal that fits a process ID, if it is one.
pub open spec fn pid_of_line(line: Seq<char>) -> Option<i32> {
    let t = trim_spec(line);
    if t.len() > 0 && all_digits(t) && seq_val(t) <= i32::MAX {
        Some(seq_val(t) as i32)
    } else {
        None
    }
}

/// The process IDs of a listing, line by line, lines without one skipped.
pub open spec fn pids_of_lines(lines: Seq<Seq<char>>) -> Seq<i32>
    decreases lines.len(),
{
    if lines.len() == 0 {
        seq![]
    } else {
        (match pid_of_line(lines[0]) {
            Some(p) => seq![p],
            None => seq![],
        }) + pids_of_lines(lines.drop_first())
    }
}

/// The process IDs in the whole output of the process lister.
pub open spec fn spec_parse_pids(output: Seq<char>) -> Seq<i32> {
    pids_of_lines(split_lines(output))
}

/// The process ID one listing line carries, as `pid_of_line` describes it.
fn parse_pid(line: &str) -> (r: Option<i32>)
    ensures
        r == pid_of_line(line@),
{
    let t = trim(line);
    let n = t.unicode_len();
    if n == 0 {
        return None;
    }
    let mut acc: u64 = 0;
    let mut i: usize = 0;
    proof {
        assert(t@.subrange(0, 0) =~= Seq::<char>::empty());
    }
    while i < n
        invariant
            0 <= i <= n,
            n == t@.len(),
            t@ == trim_spec(line@),
            forall|p: int| 0 <= p < i ==> is_digit(t@[p]),
            acc == seq_val(t@.subrange(0, i as int)),
            acc <= i32::MAX,
        decreases n - i,
    {
        let c = t.get_char(i);
        if !is_digit_char(c) {
            return None;
        }
        let d = digit_value(c);
        let next = acc * 10 + d;
        proof {
            assert(t@.subrange(0, i + 1).drop_last() =~= t@.subrange(0, i as int));
            assert(next == seq_val(t@.subrange(0, i + 1)));
        }
        if next > i32::MAX as u64 {
            proof {
                lemma_seq_val_prefix(t@, i + 1, n as int);
                assert(t@.subrange(0, n as int) =~= t@);
            }
            return None;
        }
        acc = next;
        i = i + 1;
    }
    proof {
        assert(t@.subrange(0, n as int) =~= t@);
    }
    Some(acc as i32)
}

/// The process IDs in the output of the process lister, in listing order:
/// each line trimmed and read as an unsigned decimal process ID, lines that
/// carry none skipped.
pub fn parse_pid_output(output: &str) -> (pids: Vec<i32>)
    ensures
        pids@ == spec_parse_pids(output@),
{
    let lines = split_into_lines(output);
    let ghost all = lines.deep_view();
    let n = lines.len();
    let mut pids: Vec<i32> = Vec::new();
    let mut i: usize = 0;
    proof {
        assert(all.skip(0) =~~= all);
        assert(pids@ + pids_of_lines(all.skip(0)) =~= pids_of_lines(all));
    }
    while i < n
        invariant
            0 <= i <= n,
            n == lines.len(),
            all == lines.deep_view(),
            pids@ + pids_of_lines(all.skip(i as int)) =~= pids_of_lines(all),
        decreases n - i,
    {
        let line: &String = &lines[i];
        proof {
            assert(line@ == all[i as int]);
        }
        let ghost old_pids = pids@;
        match parse_pid(line.as_str()) {
            Some(p) => {
                pids.push(p);
            },
            None => {},
        }
        proof {
            let rest = all.skip(i as int);
            assert(rest[0] == all[i as int]);
            assert(rest.drop_first() =~~= all.skip(i + 1));
            assert(pids_of_lines(rest) =~= (match pid_of_line(all[i as int]) {
                Some(p) => seq![p],
                None => seq![],
            }) + pids_of_lines(all.skip(i + 1)));
            match pid_of_line(all[i as int]) {
                Some(p) => {
                    assert(old_pids + (seq![p] + pids_of_lines(all.skip(i + 1))) =~= (old_pids
                        + seq![p]) + pids_of_lines(all.skip(i + 1)));
                },
                None => {
                    assert(Seq::<i32>::empty() + pids_of_lines(all.skip(i + 1)) =~= pids_of_lines(
                        all.skip(i + 1),
                    ));
                },
            }
        }
        i = i + 1;
    }
    proof {
        assert(all.skip(n as int) =~~= Seq::<Seq<char>>::empty());
        assert(pids@ =~= pids_of_lines(all));
    }
    pids
}

} // verus!
