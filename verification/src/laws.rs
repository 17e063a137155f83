//! Properties of the filter, stated over the model and proved once and for
//! all: order preservation, idempotent deduplication, independence of
//! distinct lines, and non-match passthrough.

use vstd::prelude::*;
use crate::exact::HashUniqueTester;
use crate::tester::UniqueTester;
use crate::tester::lemma_retained_append;
use crate::tester::lemma_retained_single;
use crate::tester::retained;
use crate::tester::seen_after_all;
use crate::tester::step_dup;
use crate::tester::step_seen;

verus! {

/// Whether `a` occurs inside `b` in order: `a` can be obtained from `b` by
/// deleting elements without reordering.
pub open spec fn is_subsequence(a: Seq<Seq<char>>, b: Seq<Seq<char>>) -> bool
    decreases b.len(), a.len(),
{
    if a.len() == 0 {
        true
    } else if b.len() == 0 {
        false
    } else {
        (a[0] == b[0] && is_subsequence(a.drop_first(), b.drop_first())) || is_subsequence(
            a,
            b.drop_first(),
        )
    }
}

/// Order preservation: whatever the tester and its prior state, the retained
/// lines form a subsequence of the input — kept lines appear in the output
/// in their input order.
pub proof fn lemma_order_preservation<T: UniqueTester>(
    t: T,
    seen: Set<Seq<Seq<char>>>,
    lines: Seq<Seq<char>>,
)
    ensures
        is_subsequence(retained(t, seen, lines), lines),
    decreases lines.len(),
{
    if lines.len() > 0 {
        let fp = t.fingerprint(lines[0]);
        let seen1 = step_seen(fp, seen);
        lemma_order_preservation(t, seen1, lines.drop_first());
        let rest = retained(t, seen1, lines.drop_first());
        if step_dup(fp, seen) {
            assert(retained(t, seen, lines) == rest);
        } else {
            let res = seq![lines[0]] + rest;
            assert(res[0] == lines[0]);
            assert(res.drop_first() =~= rest);
        }
    }
}

/// Idempotence of repetition: an exact tester that has seen nothing yet
/// keeps only the first of two identical lines.
pub proof fn lemma_exact_repeat(t: HashUniqueTester, l: Seq<char>)
    ensures
        retained(t, Set::empty(), seq![l, l]) == seq![l],
{
    let e = Set::<Seq<Seq<char>>>::empty();
    assert(seq![l, l] =~= seq![l] + seq![l]);
    lemma_retained_append(t, e, seq![l], seq![l]);
    lemma_retained_single(t, e, l);
    let s1 = step_seen(t.fingerprint(l), e);
    assert(s1.contains(seq![l]));
    lemma_retained_single(t, s1, l);
    assert(seq![l] + Seq::<Seq<char>>::empty() =~= seq![l]);
}

/// Exact mode never deduplicates two distinct lines against each other:
/// lines that differ in as little as one character are both kept.
pub proof fn lemma_exact_distinct(
    t: HashUniqueTester,
    seen: Set<Seq<Seq<char>>>,
    l1: Seq<char>,
    l2: Seq<char>,
)
    requires
        l1 != l2,
        !seen.contains(seq![l1]),
        !seen.contains(seq![l2]),
    ensures
        retained(t, seen, seq![l1, l2]) == seq![l1, l2],
{
    assert(seq![l1, l2] =~= seq![l1] + seq![l2]);
    lemma_retained_append(t, seen, seq![l1], seq![l2]);
    lemma_retained_single(t, seen, l1);
    let s1 = step_seen(t.fingerprint(l1), seen);
    assert(seq![l1][0] != seq![l2][0]);
    assert(!s1.contains(seq![l2]));
    lemma_retained_single(t, s1, l2);
    assert(seq![l1] + seq![l2] =~= seq![l1, l2]);
}

/// Non-match passthrough: a line the tester gives no fingerprint is always
/// emitted, wherever it stands and whatever was seen before, and it leaves
/// the seen set untouched — so it is never deduplicated against any other
/// line (identical or not) and never affects later decisions.
pub proof fn lemma_nonmatch_passthrough<T: UniqueTester>(
    t: T,
    seen: Set<Seq<Seq<char>>>,
    before: Seq<Seq<char>>,
    l: Seq<char>,
    after: Seq<Seq<char>>,
)
    requires
        t.fingerprint(l) is None,
    ensures
        retained(t, seen, before + seq![l] + after) == retained(t, seen, before) + seq![l]
            + retained(t, seen_after_all(t, seen, before), after),
        seen_after_all(t, seen, before + seq![l] + after) == seen_after_all(
            t,
            seen,
            before + after,
        ),
{
    let mid = seen_after_all(t, seen, before);
    assert(before + seq![l] + after =~= before + (seq![l] + after));
    lemma_retained_append(t, seen, before, seq![l] + after);
    lemma_retained_append(t, mid, seq![l], after);
    lemma_retained_single(t, mid, l);
    assert(retained(t, mid, seq![l] + after) == seq![l] + retained(t, mid, after));
    assert(retained(t, seen, before) + (seq![l] + retained(t, mid, after)) =~= retained(
        t,
        seen,
        before,
    ) + seq![l] + retained(t, mid, after));
    lemma_retained_append(t, seen, before, after);
}

/// Empty input produces empty output, whatever the tester and its state.
pub proof fn lemma_empty_input<T: UniqueTester>(t: T, seen: Set<Seq<Seq<char>>>)
    ensures
        retained(t, seen, Seq::empty()) == Seq::<Seq<char>>::empty(),
        seen_after_all(t, seen, Seq::empty()) == seen,
{
}

} // verus!
