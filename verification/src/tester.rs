//! The shared uniqueness-testing contract, and the mathematical model of a
//! run of the filter: which lines are retained and which fingerprints have
//! been seen after a sequence of lines.

use vstd::prelude::*;

verus! {

/// A stateful predicate over lines. `visit` answers "has this line (or its
/// fingerprint) already been seen in this run?"; on a first occurrence the
/// fingerprint is recorded before returning, so an equal later line is
/// classified as a duplicate.
///
/// A line's fingerprint is an ordered tuple of strings; a line with no
/// fingerprint (`None`) never takes part in deduplication: it is always
/// passed through and never recorded.
pub trait UniqueTester: Sized {
    /// The fingerprint this tester assigns to a line, if any. It depends
    /// only on the tester's fixed configuration, never on the lines visited
    /// so far.
    spec fn fingerprint(&self, line: Seq<char>) -> Option<Seq<Seq<char>>>;

    /// The set of fingerprints recorded so far.
    spec fn seen(&self) -> Set<Seq<Seq<char>>>;

    /// The tester's internal invariant.
    spec fn wf(&self) -> bool;

    /// Returns true exactly when the line's fingerprint was already seen;
    /// on a first occurrence (and only then) the fingerprint is recorded.
    fn visit(&mut self, line: &String) -> (dup: bool)
        requires
            old(self).wf(),
        ensures
            final(self).wf(),
            dup == step_dup(old(self).fingerprint(line@), old(self).seen()),
            final(self).seen() == step_seen(old(self).fingerprint(line@), old(self).seen()),
            forall|l: Seq<char>| #[trigger] final(self).fingerprint(l) == old(self).fingerprint(l),
    ;
}

/// Whether a line with fingerprint `fp` counts as a duplicate against the
/// seen set `seen`. A line without a fingerprint is never a duplicate.
pub open spec fn step_dup(fp: Option<Seq<Seq<char>>>, seen: Set<Seq<Seq<char>>>) -> bool {
    match fp {
        Option::Some(f) => seen.contains(f),
        Option::None => false,
    }
}

/// The seen set after visiting a line with fingerprint `fp`: unchanged for a
/// duplicate or a fingerprint-less line, extended on a first occurrence.
pub open spec fn step_seen(
    fp: Option<Seq<Seq<char>>>,
    seen: Set<Seq<Seq<char>>>,
) -> Set<Seq<Seq<char>>> {
    match fp {
        Option::Some(f) => if seen.contains(f) {
            seen
        } else {
            seen.insert(f)
        },
        Option::None => seen,
    }
}

/// The lines retained (in input order) when `lines` are visited one by one,
/// starting from the seen set `seen`, by a tester configured as `t`.
pub open spec fn retained<T: UniqueTester>(
    t: T,
    seen: Set<Seq<Seq<char>>>,
    lines: Seq<Seq<char>>,
) -> Seq<Seq<char>>
    decreases lines.len(),
{
    if lines.len() == 0 {
        Seq::empty()
    } else {
        let fp = t.fingerprint(lines[0]);
        let rest = retained(t, step_seen(fp, seen), lines.drop_first());
        if step_dup(fp, seen) {
            rest
        } else {
            seq![lines[0]] + rest
        }
    }
}

/// The seen set after visiting `lines` one by one, starting from `seen`.
pub open spec fn seen_after_all<T: UniqueTester>(
    t: T,
    seen: Set<Seq<Seq<char>>>,
    lines: Seq<Seq<char>>,
) -> Set<Seq<Seq<char>>>
    decreases lines.len(),
{
    if lines.len() == 0 {
        seen
    } else {
        seen_after_all(t, step_seen(t.fingerprint(lines[0]), seen), lines.drop_first())
    }
}

/// Visiting `a + b` retains first what `a` retains, then what `b` retains
/// starting from the seen set `a` leaves behind.
pub proof fn lemma_retained_append<T: UniqueTester>(
    t: T,
    seen: Set<Seq<Seq<char>>>,
    a: Seq<Seq<char>>,
    b: Seq<Seq<char>>,
)
    ensures
        retained(t, seen, a + b) == retained(t, seen, a) + retained(
            t,
            seen_after_all(t, seen, a),
            b,
        ),
        seen_after_all(t, seen, a + b) == seen_after_all(t, seen_after_all(t, seen, a), b),
    decreases a.len(),
{
    if a.len() == 0 {
        assert(a + b =~= b);
        assert(retained(t, seen, a) == Seq::<Seq<char>>::empty());
        assert(seen_after_all(t, seen, a) == seen);
        assert(retained(t, seen, a) + retained(t, seen, b) =~= retained(t, seen, b));
    } else {
        let fp = t.fingerprint(a[0]);
        let seen1 = step_seen(fp, seen);
        lemma_retained_append(t, seen1, a.drop_first(), b);
        assert((a + b).len() > 0);
        assert((a + b)[0] == a[0]);
        assert((a + b).drop_first() =~= a.drop_first() + b);
        if !step_dup(fp, seen) {
            assert(seq![a[0]] + (retained(t, seen1, a.drop_first()) + retained(
                t,
                seen_after_all(t, seen1, a.drop_first()),
                b,
            )) =~= (seq![a[0]] + retained(t, seen1, a.drop_first())) + retained(
                t,
                seen_after_all(t, seen1, a.drop_first()),
                b,
            ));
        }
    }
}

/// Visiting a single line retains it exactly when it is not a duplicate, and
/// steps the seen set once.
pub proof fn lemma_retained_single<T: UniqueTester>(t: T, seen: Set<Seq<Seq<char>>>, l: Seq<char>)
    ensures
        retained(t, seen, seq![l]) == if step_dup(t.fingerprint(l), seen) {
            Seq::<Seq<char>>::empty()
        } else {
            seq![l]
        },
        seen_after_all(t, seen, seq![l]) == step_seen(t.fingerprint(l), seen),
{
    let fp = t.fingerprint(l);
    assert(seq![l][0] == l);
    assert(seq![l].drop_first() =~= Seq::<Seq<char>>::empty());
    assert(retained(t, step_seen(fp, seen), Seq::<Seq<char>>::empty())
        == Seq::<Seq<char>>::empty());
    assert(seen_after_all(t, step_seen(fp, seen), Seq::<Seq<char>>::empty()) == step_seen(
        fp,
        seen,
    ));
    if !step_dup(fp, seen) {
        assert(seq![l] + Seq::<Seq<char>>::empty() =~= seq![l]);
    }
}

} // verus!
