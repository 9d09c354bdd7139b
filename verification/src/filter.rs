//! Blacklist/whitelist classification of window titles. The rule sets are
//! loaded from line-oriented text (blank lines and `#` comments skipped,
//! patterns the engine rejects dropped), and a title is disallowed exactly
//! when some blacklist pattern matches it and no whitelist pattern does:
//! a whitelist match overrides the blacklist for that title alone.

use vstd::prelude::*;
use vstd::string::*;

use crate::text::{split_into_lines, split_lines, trim, trim_spec};

verus! {

/// Whether the regex engine accepts `pattern`; the result of compiling it,
/// which depends on the pattern alone.
pub uninterp spec fn regex_valid(pattern: Seq<char>) -> bool;

/// Whether `pattern` matches anywhere in `text`; the result of the match,
/// which depends on the pattern and the text alone. A pattern the engine
/// rejects matches nothing.
pub uninterp spec fn regex_accepts(pattern: Seq<char>, text: Seq<char>) -> bool;

/// Relies on `regex::Regex::new`: whether a pattern compiles is a function
/// of the pattern alone.
#[verifier::external_body]
fn regex_compiles(pattern: &str) -> (r: bool)
    ensures
        r == regex_valid(pattern@),
{
    regex::Regex::new(pattern).is_ok()
}

/// Relies on `regex::Regex::new` and `regex::Regex::is_match`: whether a
/// pattern matches somewhere in a text is a function of the two strings
/// alone, so the compile-and-match composite has one name, `regex_accepts`.
/// A pattern the engine rejects is taken to match nothing, which no caller
/// reaches: filters hold only patterns that compiled.
#[verifier::external_body]
fn regex_is_match(pattern: &str, text: &str) -> (r: bool)
    ensures
        r == regex_accepts(pattern@, text@),
{
    match regex::Regex::new(pattern) {
        Ok(re) => re.is_match(text),
        Err(_) => false,
    }
}

/// A trimmed line that contributes a pattern: nonempty, not a `#` comment,
/// and accepted by the regex engine.
pub open spec fn keeps(t: Seq<char>) -> bool {
    t.len() > 0 && t[0] != '#' && regex_valid(t)
}

/// The patterns that a rule file's lines contribute: each line trimmed,
/// kept in order when `keeps` holds of it.
pub open spec fn kept_patterns(lines: Seq<Seq<char>>) -> Seq<Seq<char>>
    decreases lines.len(),
{
    if lines.len() == 0 {
        seq![]
    } else {
        let t = trim_spec(lines[0]);
        (if keeps(t) {
            seq![t]
        } else {
            seq![]
        }) + kept_patterns(lines.drop_first())
    }
}

/// The patterns of a whole rule file.
pub open spec fn collect_patterns(content: Seq<char>) -> Seq<Seq<char>> {
    kept_patterns(split_lines(content))
}

/// Some pattern of `patterns` matches `title`.
pub open spec fn spec_any_match(patterns: Seq<Seq<char>>, title: Seq<char>) -> bool {
    exists|i: int| 0 <= i < patterns.len() && regex_accepts(patterns[i], title)
}

/// The compiled rule sets: the blacklist and whitelist patterns that
/// survived loading, in file order.
pub struct Filter {
    /// Patterns whose match disallows a title.
    pub blacklist: Vec<String>,
    /// Patterns whose match overrides the blacklist for that title.
    pub whitelist: Vec<String>,
}

/// Read the patterns of one rule file's contents, as `collect_patterns`
/// describes them: lines trimmed, blanks and `#` comments skipped, and
/// lines the regex engine rejects dropped.
pub fn load_patterns(content: &str) -> (patterns: Vec<String>)
    ensures
        patterns.deep_view() == collect_patterns(content@),
{
    let lines = split_into_lines(content);
    let ghost all = lines.deep_view();
    let n = lines.len();
    let mut patterns: Vec<String> = Vec::new();
    let mut i: usize = 0;
    proof {
        assert(all.skip(0) =~~= all);
        assert(patterns.deep_view() =~~= Seq::<Seq<char>>::empty());
        assert(patterns.deep_view() + kept_patterns(all.skip(0)) =~~= kept_patterns(all));
    }
    while i < n
        invariant
            0 <= i <= n,
            n == lines.len(),
            all == lines.deep_view(),
            patterns.deep_view() + kept_patterns(all.skip(i as int)) =~~= kept_patterns(all),
        decreases n - i,
    {
        let line: &String = &lines[i];
        proof {
            assert(line@ == all[i as int]);
        }
        let t = trim(line.as_str());
        let ghost lt = trim_spec(all[i as int]);
        let ghost old_patterns = patterns.deep_view();
        let kept = !t.is_empty() && !(t.get_char(0) == '#') && regex_compiles(t);
        if kept {
            patterns.push(t.to_owned());
            proof {
                assert(patterns.deep_view() =~~= old_patterns + seq![lt]);
            }
        }
        proof {
            let rest = all.skip(i as int);
            assert(rest[0] == all[i as int]);
            assert(rest.drop_first() =~~= all.skip(i + 1));
            assert(kept_patterns(rest) =~~= (if keeps(lt) {
                seq![lt]
            } else {
                seq![]
            }) + kept_patterns(all.skip(i + 1)));
            if kept {
                assert(old_patterns + (seq![lt] + kept_patterns(all.skip(i + 1))) =~~= (
                old_patterns + seq![lt]) + kept_patterns(all.skip(i + 1)));
            } else {
                assert(old_patterns + (Seq::<Seq<char>>::empty() + kept_patterns(all.skip(i + 1)))
                    =~~= old_patterns + kept_patterns(all.skip(i + 1)));
            }
        }
        i = i + 1;
    }
    proof {
        assert(all.skip(n as int) =~~= Seq::<Seq<char>>::empty());
        assert(patterns.deep_view() =~~= kept_patterns(all));
    }
    patterns
}

impl Filter {
    /// The blacklist as the pattern texts the contracts speak of.
    pub open spec fn blacklist_patterns(self) -> Seq<Seq<char>> {
        self.blacklist.deep_view()
    }

    /// The whitelist as the pattern texts the contracts speak of.
    pub open spec fn whitelist_patterns(self) -> Seq<Seq<char>> {
        self.whitelist.deep_view()
    }

    /// `title` is disallowed: some blacklist pattern matches it and no
    /// whitelist pattern matches that same title.
    pub open spec fn spec_is_blacklisted(self, title: Seq<char>) -> bool {
        spec_any_match(self.blacklist_patterns(), title) && !spec_any_match(
            self.whitelist_patterns(),
            title,
        )
    }

    /// Some title of the batch is disallowed.
    pub open spec fn spec_any_blacklisted(self, titles: Seq<Seq<char>>) -> bool {
        exists|i: int| 0 <= i < titles.len() && self.spec_is_blacklisted(titles[i])
    }

    /// Build the rule sets from the contents of the blacklist and whitelist
    /// files.
    pub fn new(blacklist_content: &str, whitelist_content: &str) -> (f: Filter)
        ensures
            f.blacklist_patterns() == collect_patterns(blacklist_content@),
            f.whitelist_patterns() == collect_patterns(whitelist_content@),
    {
        Filter {
            blacklist: load_patterns(blacklist_content),
            whitelist: load_patterns(whitelist_content),
        }
    }

    /// Whether some whitelist pattern matches `title`.
    pub fn is_whitelisted(&self, title: &str) -> (r: bool)
        ensures
            r == spec_any_match(self.whitelist_patterns(), title@),
    {
        let n = self.whitelist.len();
        let mut i: usize = 0;
        while i < n
            invariant
                0 <= i <= n,
                n == self.whitelist.len(),
                forall|j: int|
                    0 <= j < i ==> !regex_accepts(self.whitelist.deep_view()[j], title@),
            decreases n - i,
        {
            let p: &String = &self.whitelist[i];
            proof {
                assert(p@ == self.whitelist.deep_view()[i as int]);
            }
            if regex_is_match(p.as_str(), title) {
                return true;
            }
            i = i + 1;
        }
        false
    }

    /// Whether `title` is disallowed: true exactly when some blacklist
    /// pattern matches it and no whitelist pattern matches it.
    pub fn is_blacklisted(&self, title: &str) -> (r: bool)
        ensures
            r == self.spec_is_blacklisted(title@),
    {
        let n = self.blacklist.len();
        let mut i: usize = 0;
        while i < n
            invariant
                0 <= i <= n,
                n == self.blacklist.len(),
                forall|j: int|
                    0 <= j < i ==> !regex_accepts(self.blacklist.deep_view()[j], title@)
                        || spec_any_match(self.whitelist_patterns(), title@),
            decreases n - i,
        {
            let p: &String = &self.blacklist[i];
            proof {
                assert(p@ == self.blacklist.deep_view()[i as int]);
            }
            if regex_is_match(p.as_str(), title) {
                if !self.is_whitelisted(title) {
                    return true;
                }
            }
            i = i + 1;
        }
        false
    }

    /// Whether some title of the batch is disallowed; stops at the first
    /// such title.
    pub fn check_titles(&self, titles: &Vec<String>) -> (r: bool)
        ensures
            r == self.spec_any_blacklisted(titles.deep_view()),
    {
        let n = titles.len();
        let mut i: usize = 0;
        while i < n
            invariant
                0 <= i <= n,
                n == titles.len(),
                forall|j: int|
                    0 <= j < i ==> !self.spec_is_blacklisted(titles.deep_view()[j]),
            decreases n - i,
        {
            let t: &String = &titles[i];
            proof {
                assert(t@ == titles.deep_view()[i as int]);
            }
            if self.is_blacklisted(t.as_str()) {
                return true;
            }
            i = i + 1;
        }
        false
    }
}

/// A batch has a disallowed title exactly when not every title in it is
/// individually allowed; in particular the empty batch never has one.
pub proof fn lemma_any_blacklisted_pointwise(f: Filter, titles: Seq<Seq<char>>)
    ensures
        f.spec_any_blacklisted(titles) <==> !(forall|i: int|
            0 <= i < titles.len() ==> !f.spec_is_blacklisted(titles[i])),
        titles.len() == 0 ==> !f.spec_any_blacklisted(titles),
{
}

} // verus!
