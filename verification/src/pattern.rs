//! Pattern-based uniqueness: the fingerprint of a line is the ordered tuple
//! of substrings captured by a regular expression's capture groups, taken
//! from the leftmost match anywhere in the line. A line the pattern does not
//! match has no fingerprint: it is always passed through and never recorded.

use vstd::prelude::*;
use crate::tester::UniqueTester;
use crate::tester::step_seen;

verus! {

#[verifier::external_type_specification]
#[verifier::external_body]
pub struct ExRegex(regex::Regex);

#[verifier::external_type_specification]
#[verifier::external_body]
pub struct ExRegexError(regex::Error);

/// Whether `regex::Regex::new` accepts `pattern`: valid syntax, compiled
/// within the default size limit.
pub uninterp spec fn pattern_valid(pattern: Seq<char>) -> bool;

/// The source pattern a compiled regex was built from (what
/// `regex::Regex::as_str` hands back).
pub uninterp spec fn pattern_of(re: regex::Regex) -> Seq<char>;

/// What matching `pattern` against `line` captures: `None` when the pattern
/// matches nowhere in the line; otherwise, for each explicit capture group in
/// declaration order (group 0, the whole match, excluded), the text of the
/// leftmost match's capture, or `None` for a group that did not participate.
pub uninterp spec fn captures_of(pattern: Seq<char>, line: Seq<char>) -> Option<
    Seq<Option<Seq<char>>>,
>;

/// Relies on `regex::Regex::new`: it succeeds exactly when the pattern is
/// acceptable (its documentation: an error on invalid syntax, or when the
/// compiled regex would exceed the default size limit), and the compiled
/// regex remembers its source pattern.
#[verifier::external_body]
fn regex_new(pattern: &str) -> (r: Result<regex::Regex, regex::Error>)
    ensures
        r is Ok <==> pattern_valid(pattern@),
        r matches Ok(re) ==> pattern_of(re) == pattern@,
{
    regex::Regex::new(pattern)
}

/// Relies on `regex::Regex::captures`: it finds the leftmost match anywhere
/// in the line, if any, and the groups it reports depend only on the regex's
/// pattern and the line. `Captures::iter` yields every group in declaration
/// order, starting with group 0 (the whole match), which is skipped here.
#[verifier::external_body]
fn regex_captures(re: &regex::Regex, line: &str) -> (r: Option<Vec<Option<String>>>)
    ensures
        r is Some <==> captures_of(pattern_of(*re), line@) is Some,
        r matches Some(groups) ==> Option::Some(groups.deep_view()) == captures_of(
            pattern_of(*re),
            line@,
        ),
{
    re.captures(line).map(|caps|
        caps.iter().skip(1).map(|g| g.map(|m| m.as_str().to_string())).collect()
    )
}

/// Relies on `regex::Error`'s `Display` impl for a human-readable reason.
#[verifier::external_body]
fn regex_error_message(e: &regex::Error) -> String {
    format!("{}", e)
}

/// The reason a pattern was rejected, together with the offending pattern.
pub struct PatternError {
    pub pattern: String,
    pub message: String,
}

/// The fingerprint element contributed by one capture group: its captured
/// text, or the empty string for a group that did not participate in the
/// match.
pub open spec fn group_text(g: Option<Seq<char>>) -> Seq<char> {
    match g {
        Option::Some(s) => s,
        Option::None => Seq::empty(),
    }
}

/// The fingerprint tuple formed from a successful match's capture groups.
pub open spec fn fingerprint_of_groups(gs: Seq<Option<Seq<char>>>) -> Seq<Seq<char>> {
    gs.map_values(|g: Option<Seq<char>>| group_text(g))
}

/// Whether `v` holds a recorded fingerprint equal to `f`.
pub open spec fn holds_fp(v: Seq<Vec<String>>, f: Seq<Seq<char>>) -> bool {
    exists|i: int| 0 <= i < v.len() && #[trigger] v[i].deep_view() == f
}

/// Tracks the set of previously seen capture-group tuples; a line is a
/// duplicate exactly when an earlier line yielded an equal tuple.
pub struct RegexUniqueTester {
    re: regex::Regex,
    visited: Vec<Vec<String>>,
}

impl RegexUniqueTester {
    /// The source pattern this tester deduplicates by.
    pub closed spec fn pattern(&self) -> Seq<char> {
        pattern_of(self.re)
    }

    /// Compiles the pattern once, up front: a malformed pattern is rejected
    /// here, before any line is processed.
    pub fn new(regexp: String) -> (r: Result<Self, PatternError>)
        ensures
            r is Ok <==> pattern_valid(regexp@),
            r matches Ok(t) ==> t.wf() && t.seen() == Set::<Seq<Seq<char>>>::empty()
                && t.pattern() == regexp@,
            r matches Err(e) ==> e.pattern@ == regexp@,
    {
        match regex_new(regexp.as_str()) {
            Result::Ok(re) => {
                let t = RegexUniqueTester { re, visited: Vec::new() };
                proof {
                    assert(t.seen() =~= Set::<Seq<Seq<char>>>::empty());
                }
                Result::Ok(t)
            },
            Result::Err(e) => {
                let message = regex_error_message(&e);
                Result::Err(PatternError { pattern: regexp, message })
            },
        }
    }
}

/// Builds the fingerprint tuple from the reported groups: captured text
/// verbatim, the empty string for a non-participating group.
fn groups_to_fingerprint(groups: &Vec<Option<String>>) -> (fp: Vec<String>)
    ensures
        fp.deep_view() == fingerprint_of_groups(groups.deep_view()),
{
    let n = groups.len();
    let mut fp: Vec<String> = Vec::new();
    let mut i: usize = 0;
    while i < n
        invariant
            n == groups@.len(),
            i <= n,
            fp@.len() == i,
            forall|j: int| 0 <= j < i ==> #[trigger] fp@[j]@ == group_text(
                groups@[j].deep_view(),
            ),
        decreases n - i,
    {
        match &groups[i] {
            Option::Some(s) => {
                fp.push(s.clone());
                proof {
                    assert(groups@[i as int] == Option::Some(*s));
                    assert(fp@[i as int]@ == group_text(groups@[i as int].deep_view()));
                }
            },
            Option::None => {
                fp.push(String::new());
                proof {
                    assert(fp@[i as int]@ == group_text(groups@[i as int].deep_view()));
                }
            },
        }
        i += 1;
    }
    proof {
        assert forall|j: int| 0 <= j < n implies fp.deep_view()[j] == fingerprint_of_groups(
            groups.deep_view(),
        )[j] by {
            assert(fp.deep_view()[j] == fp@[j]@);
            assert(groups.deep_view()[j] == groups@[j].deep_view());
        }
        assert(fp.deep_view() =~= fingerprint_of_groups(groups.deep_view()));
    }
    fp
}

/// Elementwise string comparison of two fingerprint tuples.
fn fp_eq(a: &Vec<String>, b: &Vec<String>) -> (r: bool)
    ensures
        r == (a.deep_view() == b.deep_view()),
{
    if a.len() != b.len() {
        proof {
            assert(a.deep_view().len() == a@.len());
            assert(b.deep_view().len() == b@.len());
        }
        return false;
    }
    let n = a.len();
    let mut j: usize = 0;
    while j < n
        invariant
            n == a@.len(),
            n == b@.len(),
            j <= n,
            forall|k: int| 0 <= k < j ==> #[trigger] a.deep_view()[k] == b.deep_view()[k],
        decreases n - j,
    {
        if !a[j].eq(&b[j]) {
            proof {
                assert(a.deep_view()[j as int] == a@[j as int]@);
                assert(b.deep_view()[j as int] == b@[j as int]@);
            }
            return false;
        }
        j += 1;
    }
    proof {
        assert(a.deep_view() =~= b.deep_view());
    }
    true
}

/// Linear scan for a recorded fingerprint equal to `fp`.
fn contains_fp(v: &Vec<Vec<String>>, fp: &Vec<String>) -> (found: bool)
    ensures
        found == holds_fp(v@, fp.deep_view()),
{
    let n = v.len();
    let mut i: usize = 0;
    while i < n
        invariant
            n == v@.len(),
            i <= n,
            forall|j: int| 0 <= j < i ==> #[trigger] v@[j].deep_view() != fp.deep_view(),
        decreases n - i,
    {
        if fp_eq(&v[i], fp) {
            proof {
                assert(v@[i as int].deep_view() == fp.deep_view());
            }
            return true;
        }
        i += 1;
    }
    false
}

impl UniqueTester for RegexUniqueTester {
    /// The capture tuple of the leftmost match, if the pattern matches the
    /// line at all; a non-participating group contributes the empty string.
    open spec fn fingerprint(&self, line: Seq<char>) -> Option<Seq<Seq<char>>> {
        match captures_of(self.pattern(), line) {
            Option::Some(gs) => Option::Some(fingerprint_of_groups(gs)),
            Option::None => Option::None,
        }
    }

    closed spec fn seen(&self) -> Set<Seq<Seq<char>>> {
        Set::new(|f: Seq<Seq<char>>| holds_fp(self.visited@, f))
    }

    /// No fingerprint is recorded twice.
    closed spec fn wf(&self) -> bool {
        forall|i: int, j: int| 0 <= i < j < self.visited@.len()
            ==> self.visited@[i].deep_view() != self.visited@[j].deep_view()
    }

    fn visit(&mut self, line: &String) -> (dup: bool) {
        match regex_captures(&self.re, line.as_str()) {
            Option::None => false,
            Option::Some(groups) => {
                let fp = groups_to_fingerprint(&groups);
                let found = contains_fp(&self.visited, &fp);
                if found {
                    true
                } else {
                    let ghost pre = *self;
                    self.visited.push(fp);
                    proof {
                        assert(self.visited@[self.visited@.len() - 1].deep_view()
                            == fp.deep_view());
                        assert forall|f: Seq<Seq<char>>| holds_fp(self.visited@, f) implies (
                            holds_fp(pre.visited@, f) || f == fp.deep_view()
                        ) by {
                            let i = choose|i: int| 0 <= i < self.visited@.len()
                                && #[trigger] self.visited@[i].deep_view() == f;
                            if i < pre.visited@.len() {
                                assert(pre.visited@[i].deep_view() == f);
                            }
                        }
                        assert forall|f: Seq<Seq<char>>| holds_fp(pre.visited@, f) implies
                            holds_fp(self.visited@, f) by {
                            let i = choose|i: int| 0 <= i < pre.visited@.len()
                                && #[trigger] pre.visited@[i].deep_view() == f;
                            assert(self.visited@[i].deep_view() == f);
                        }
                        assert(self.seen() =~= step_seen(
                            pre.fingerprint(line@),
                            pre.seen(),
                        ));
                    }
                    false
                }
            },
        }
    }
}

} // verus!
