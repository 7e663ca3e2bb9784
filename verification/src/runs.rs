//! Contiguous runs of pieces inside generated output.

use vstd::prelude::*;
use crate::model::rep;

verus! {

/// `r` occurs in `t` as a contiguous run.
pub open spec fn contains_run<T>(t: Seq<T>, r: Seq<T>) -> bool {
    exists|i: int| 0 <= i && i + r.len() <= t.len() && #[trigger] t.subrange(i, i + r.len()) == r
}

/// Every sequence is a run of itself.
pub proof fn lemma_run_self<T>(r: Seq<T>)
    ensures
        contains_run(r, r),
{
    let z: int = 0;
    assert(r.subrange(z, z + r.len()) =~= r);
}

/// A run of either part is a run of their concatenation.
pub broadcast proof fn lemma_run_add<T>(s: Seq<T>, t: Seq<T>, r: Seq<T>)
    ensures
        (contains_run(s, r) || contains_run(t, r)) ==> #[trigger] contains_run(s + t, r),
{
    if contains_run(s, r) {
        let i = choose|i: int| 0 <= i && i + r.len() <= s.len() && #[trigger] s.subrange(i, i + r.len()) == r;
        assert((s + t).subrange(i, i + r.len()) =~= s.subrange(i, i + r.len()));
    } else if contains_run(t, r) {
        let i = choose|i: int| 0 <= i && i + r.len() <= t.len() && #[trigger] t.subrange(i, i + r.len()) == r;
        let j = s.len() + i;
        assert((s + t).subrange(j, j + r.len()) =~= t.subrange(i, i + r.len()));
    }
}

/// A run of one item of a concatenation over a sequence is a run of the whole.
pub proof fn lemma_rep_run<A, T>(s: Seq<A>, f: spec_fn(int, A) -> Seq<T>, i: int, r: Seq<T>)
    requires
        0 <= i < s.len(),
        contains_run(f(i, s[i]), r),
    ensures
        contains_run(rep(s, f), r),
    decreases s.len(),
{
    let t = s.drop_last();
    assert(rep(s, f) == rep(t, f) + f(s.len() - 1, s.last()));
    if i < s.len() - 1 {
        assert(t[i] == s[i]);
        lemma_rep_run(t, f, i, r);
    }
    lemma_run_add(rep(t, f), f(s.len() - 1, s.last()), r);
}

/// Concatenations over a sequence agree when their items agree.
pub proof fn lemma_rep_congruent<A, T>(s: Seq<A>, f: spec_fn(int, A) -> Seq<T>, g: spec_fn(int, A) -> Seq<T>)
    requires
        forall|i: int| 0 <= i < s.len() ==> #[trigger] f(i, s[i]) == g(i, s[i]),
    ensures
        rep(s, f) == rep(s, g),
    decreases s.len(),
{
    if s.len() > 0 {
        let t = s.drop_last();
        assert forall|i: int| 0 <= i < t.len() implies #[trigger] f(i, t[i]) == g(i, t[i]) by {
            assert(t[i] == s[i]);
        }
        lemma_rep_congruent(t, f, g);
    }
}

} // verus!
