//! The filter driver: visit each line in input order and keep exactly the
//! lines the tester reports as first occurrences.

use vstd::prelude::*;
use crate::tester::UniqueTester;
use crate::tester::lemma_retained_append;
use crate::tester::lemma_retained_single;
use crate::tester::retained;
use crate::tester::seen_after_all;
use crate::tester::step_dup;
use crate::tester::step_seen;

verus! {

/// Feeds every line to the tester, in input order, and returns the lines the
/// tester saw for the first time, unmodified and in input order.
pub fn filter_input<T: UniqueTester>(lines: &Vec<String>, tester: &mut T) -> (out: Vec<String>)
    requires
        old(tester).wf(),
    ensures
        final(tester).wf(),
        out.deep_view() == retained(*old(tester), old(tester).seen(), lines.deep_view()),
        final(tester).seen() == seen_after_all(
            *old(tester),
            old(tester).seen(),
            lines.deep_view(),
        ),
        forall|l: Seq<char>| #[trigger]
            final(tester).fingerprint(l) == old(tester).fingerprint(l),
{
    let ghost t0 = *tester;
    let ghost seen0 = tester.seen();
    let ghost lv = lines.deep_view();
    let mut out: Vec<String> = Vec::new();
    let n = lines.len();
    let mut idx: usize = 0;
    while idx < n
        invariant
            n == lines@.len(),
            lv == lines.deep_view(),
            idx <= n,
            tester.wf(),
            forall|l: Seq<char>| #[trigger] tester.fingerprint(l) == t0.fingerprint(l),
            out.deep_view() == retained(t0, seen0, lv.take(idx as int)),
            tester.seen() == seen_after_all(t0, seen0, lv.take(idx as int)),
        decreases n - idx,
    {
        let line = &lines[idx];
        let ghost pre = *tester;
        let ghost prefix = lv.take(idx as int);
        let ghost mid_seen = seen_after_all(t0, seen0, prefix);
        let dup = tester.visit(line);
        proof {
            assert(lv[idx as int] == line@);
            assert(lv.take(idx as int + 1) =~= prefix + seq![line@]);
            lemma_retained_append(t0, seen0, prefix, seq![line@]);
            lemma_retained_single(t0, mid_seen, line@);
            assert(pre.fingerprint(line@) == t0.fingerprint(line@));
            assert(dup == step_dup(t0.fingerprint(line@), mid_seen));
            assert(tester.seen() == step_seen(t0.fingerprint(line@), mid_seen));
        }
        if !dup {
            let ghost out_pre = out.deep_view();
            out.push(line.clone());
            proof {
                let target = retained(t0, seen0, prefix) + seq![line@];
                assert forall|j: int| 0 <= j < out@.len() implies out.deep_view()[j]
                    == target[j] by {
                    if j < out@.len() - 1 {
                        assert(out.deep_view()[j] == out_pre[j]);
                    } else {
                        assert(out@[j] == *line);
                    }
                }
                assert(out.deep_view() =~= target);
            }
        } else {
            proof {
                assert(retained(t0, seen0, prefix) + Seq::<Seq<char>>::empty() =~= retained(
                    t0,
                    seen0,
                    prefix,
                ));
            }
        }
        idx += 1;
    }
    proof {
        assert(lv.take(n as int) =~= lv);
    }
    out
}

} // verus!
