//! Full-line uniqueness: the fingerprint of a line is the line itself.

use vstd::prelude::*;
use crate::tester::UniqueTester;
use crate::tester::step_seen;

verus! {

/// Tracks the set of previously seen full lines; a line is a duplicate
/// exactly when an equal line has been visited before.
pub struct HashUniqueTester {
    visited: Vec<String>,
}

/// Whether `v` holds a string whose characters equal `line`.
pub open spec fn holds_line(v: Seq<String>, line: Seq<char>) -> bool {
    exists|i: int| 0 <= i < v.len() && #[trigger] v[i]@ == line
}

impl HashUniqueTester {
    /// A tester with an empty seen set.
    pub fn new() -> (t: Self)
        ensures
            t.wf(),
            t.seen() == Set::<Seq<Seq<char>>>::empty(),
    {
        let t = HashUniqueTester { visited: Vec::new() };
        proof {
            assert(t.seen() =~= Set::<Seq<Seq<char>>>::empty());
        }
        t
    }
}

/// Linear scan for a string equal to `line`.
fn contains_line(v: &Vec<String>, line: &String) -> (found: bool)
    ensures
        found == holds_line(v@, line@),
{
    let n = v.len();
    let mut i: usize = 0;
    while i < n
        invariant
            n == v@.len(),
            i <= n,
            forall|j: int| 0 <= j < i ==> #[trigger] v@[j]@ != line@,
        decreases n - i,
    {
        if line.eq(&v[i]) {
            proof {
                assert(v@[i as int]@ == line@);
            }
            return true;
        }
        i += 1;
    }
    false
}

impl UniqueTester for HashUniqueTester {
    /// Every line has a fingerprint: the one-element tuple holding the line
    /// verbatim, with no normalization.
    open spec fn fingerprint(&self, line: Seq<char>) -> Option<Seq<Seq<char>>> {
        Option::Some(seq![line])
    }

    closed spec fn seen(&self) -> Set<Seq<Seq<char>>> {
        Set::new(|fp: Seq<Seq<char>>| exists|l: Seq<char>| fp == seq![l] && holds_line(self.visited@, l))
    }

    /// No line is recorded twice.
    closed spec fn wf(&self) -> bool {
        forall|i: int, j: int| 0 <= i < j < self.visited@.len() ==> self.visited@[i]@ != self.visited@[j]@
    }

    fn visit(&mut self, line: &String) -> (dup: bool)
    {
        let found = contains_line(&self.visited, line);
        proof {
            assert(seq![line@][0] == line@);
            assert(self.seen().contains(seq![line@]) == holds_line(self.visited@, line@)) by {
                if self.seen().contains(seq![line@]) {
                    let l = choose|l: Seq<char>| seq![line@] == seq![l] && holds_line(self.visited@, l);
                    assert(seq![l][0] == l);
                }
                if holds_line(self.visited@, line@) {
                    assert(seq![line@] == seq![line@] && holds_line(self.visited@, line@));
                }
            }
        }
        if found {
            true
        } else {
            let ghost pre = *self;
            self.visited.push(line.clone());
            proof {
                assert forall|l: Seq<char>| holds_line(self.visited@, l) implies (
                    holds_line(pre.visited@, l) || l == line@
                ) by {
                    let i = choose|i: int| 0 <= i < self.visited@.len() && #[trigger] self.visited@[i]@ == l;
                    if i < pre.visited@.len() {
                        assert(pre.visited@[i]@ == l);
                    }
                }
                assert forall|l: Seq<char>| holds_line(pre.visited@, l) implies holds_line(
                    self.visited@, l) by {
                    let i = choose|i: int| 0 <= i < pre.visited@.len() && #[trigger] pre.visited@[i]@ == l;
                    assert(self.visited@[i]@ == l);
                }
                assert(holds_line(self.visited@, line@)) by {
                    assert(self.visited@[self.visited@.len() - 1]@ == line@);
                }
                assert(self.seen() =~= step_seen(pre.fingerprint(line@), pre.seen())) by {
                    assert forall|fp: Seq<Seq<char>>| self.seen().contains(fp) implies
                        pre.seen().contains(fp) || fp == seq![line@] by {
                        let l = choose|l: Seq<char>| fp == seq![l] && holds_line(self.visited@, l);
                        if holds_line(pre.visited@, l) {
                        } else {
                            assert(l == line@);
                        }
                    }
                    assert forall|fp: Seq<Seq<char>>| pre.seen().contains(fp) || fp == seq![line@]
                        implies self.seen().contains(fp) by {
                        if pre.seen().contains(fp) {
                            let l = choose|l: Seq<char>| fp == seq![l] && holds_line(pre.visited@, l);
                            assert(fp == seq![l] && holds_line(self.visited@, l));
                        } else {
                            assert(fp == seq![line@] && holds_line(self.visited@, line@));
                        }
                    }
                }
            }
            false
        }
    }
}

} // verus!
