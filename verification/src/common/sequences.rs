//! Facts about sequences.
use vstd::prelude::*;

verus! {

/// The sequence holds each member of the set once and nothing else.
pub open spec fn enumerates<A>(s: Seq<A>, set: Set<A>) -> bool {
    s.no_duplicates() && s.to_set() == set
}

/// One more element of a sequence is taken.
pub proof fn lemma_take_step<A>(s: Seq<A>, i: int)
    requires
        0 <= i < s.len(),
    ensures
        s.take(i + 1) == s.take(i).push(s[i]),
        forall|x: A| #[trigger]
            s.take(i + 1).contains(x) <==> s.take(i).contains(x) || x == s[i],
        s.take(i + 1).to_set() == s.take(i).to_set().insert(s[i]),
        s.no_duplicates() ==> !s.take(i).to_set().contains(s[i]) && !s.take(i).contains(s[i]),
{
    let seen = s.take(i);
    let more = s.take(i + 1);
    assert(more =~= seen.push(s[i]));
    assert forall|x: A| #[trigger] more.contains(x) <==> seen.contains(x) || x == s[i] by {
        if seen.contains(x) {
            let j = choose|j: int| 0 <= j < seen.len() && seen[j] == x;
            assert(more[j] == x);
        }
        assert(more[i] == s[i]);
    }
    assert forall|x: A| more.to_set().contains(x) <==> seen.to_set().insert(s[i]).contains(x) by {
        assert(more.contains(x) <==> seen.contains(x) || x == s[i]);
    }
    assert(more.to_set() =~= seen.to_set().insert(s[i]));
    if s.no_duplicates() && seen.contains(s[i]) {
        let j = choose|j: int| 0 <= j < seen.len() && seen[j] == s[i];
        assert(s[j] == s[i]);
    }
}

/// One more element of a sequence is filtered.
pub proof fn lemma_filter_step<A>(s: Seq<A>, i: int, pred: spec_fn(A) -> bool)
    requires
        0 <= i < s.len(),
    ensures
        s.take(i + 1).filter(pred) == if pred(s[i]) {
            s.take(i).filter(pred).push(s[i])
        } else {
            s.take(i).filter(pred)
        },
{
    reveal(Seq::filter);
    assert(s.take(i + 1).drop_last() =~= s.take(i));
}

/// What a filter keeps.
pub proof fn lemma_filter_contains<A>(s: Seq<A>, pred: spec_fn(A) -> bool, x: A)
    ensures
        s.filter(pred).contains(x) <==> s.contains(x) && pred(x),
    decreases s.len(),
{
    reveal(Seq::filter);
    if s.len() > 0 {
        lemma_filter_contains(s.drop_last(), pred, x);
        let kept = s.drop_last().filter(pred);
        if s.drop_last().contains(x) {
            let j = choose|j: int| 0 <= j < s.drop_last().len() && s.drop_last()[j] == x;
            assert(s[j] == x);
        }
        if s.contains(x) {
            let j = choose|j: int| 0 <= j < s.len() && s[j] == x;
            if j < s.len() - 1 {
                assert(s.drop_last()[j] == x);
            }
        }
        if kept.contains(x) {
            let j = choose|j: int| 0 <= j < kept.len() && kept[j] == x;
            assert(kept.push(s.last())[j] == x);
        }
        assert(kept.push(s.last())[kept.len() as int] == s.last());
        if kept.push(s.last()).contains(x) {
            let j = choose|j: int| 0 <= j < kept.push(s.last()).len() && kept.push(s.last())[j] == x;
            if j < kept.len() {
                assert(kept[j] == x);
            }
        }
    }
}

/// A filter of distinct elements keeps distinct elements.
pub proof fn lemma_filter_keeps_distinct<A>(s: Seq<A>, pred: spec_fn(A) -> bool)
    requires
        s.no_duplicates(),
    ensures
        s.filter(pred).no_duplicates(),
    decreases s.len(),
{
    reveal(Seq::filter);
    if s.len() > 0 {
        lemma_filter_keeps_distinct(s.drop_last(), pred);
        lemma_filter_contains(s.drop_last(), pred, s.last());
        if s.drop_last().contains(s.last()) {
            let j = choose|j: int| 0 <= j < s.drop_last().len() && s.drop_last()[j] == s.last();
            assert(s[j] == s[s.len() - 1]);
        }
        let kept = s.drop_last().filter(pred);
        assert forall|i: int, j: int|
            0 <= i < j < kept.push(s.last()).len() implies kept.push(s.last())[i] != kept.push(
            s.last(),
        )[j] by {
            if j == kept.len() {
                assert(kept.contains(kept[i]));
            }
        }
    }
}

/// A filter of what a sequence enumerates.
pub proof fn lemma_filter_enumerates<A>(
    s: Seq<A>,
    set: Set<A>,
    pred: spec_fn(A) -> bool,
    kept: Set<A>,
)
    requires
        enumerates(s, set),
        forall|x: A| #[trigger] kept.contains(x) <==> set.contains(x) && pred(x),
    ensures
        enumerates(s.filter(pred), kept),
{
    lemma_filter_keeps_distinct(s, pred);
    assert forall|x: A| s.filter(pred).to_set().contains(x) <==> kept.contains(x) by {
        lemma_filter_contains(s, pred, x);
        assert(s.to_set().contains(x) <==> s.contains(x));
    }
    assert(s.filter(pred).to_set() =~= kept);
}

/// What a filter keeps of the first elements comes first in what it keeps of all.
pub proof fn lemma_filter_prefix<A>(s: Seq<A>, n: int, pred: spec_fn(A) -> bool)
    requires
        0 <= n <= s.len(),
    ensures
        s.take(n).filter(pred).len() <= s.filter(pred).len(),
        forall|i: int|
            0 <= i < s.take(n).filter(pred).len() ==> s.take(n).filter(pred)[i] == #[trigger] s.filter(
                pred,
            )[i],
    decreases s.len() - n,
{
    if n < s.len() {
        lemma_filter_step(s, n, pred);
        lemma_filter_prefix(s, n + 1, pred);
        assert forall|i: int|
            0 <= i < s.take(n).filter(pred).len() implies s.take(n).filter(pred)[i]
            == #[trigger] s.filter(pred)[i] by {
            assert(s.take(n + 1).filter(pred)[i] == s.filter(pred)[i]);
        }
    } else {
        assert(s.take(n) =~= s);
    }
}

/// A filter keeps its order: what it keeps stands at rising positions, and those are all at which
/// an element passes.
pub proof fn filter_keeps_order<A>(s: Seq<A>, pred: spec_fn(A) -> bool) -> (at: Seq<int>)
    ensures
        at.len() == s.filter(pred).len(),
        forall|i: int, j: int| 0 <= i < j < at.len() ==> (#[trigger] at[i]) < (#[trigger] at[j]),
        forall|i: int|
            0 <= i < at.len() ==> {
                &&& 0 <= #[trigger] at[i] < s.len()
                &&& pred(s[at[i]])
                &&& s.filter(pred)[i] == s[at[i]]
            },
        forall|k: int| 0 <= k < s.len() && pred(#[trigger] s[k]) ==> at.contains(k),
    decreases s.len(),
{
    reveal(Seq::filter);
    if s.len() == 0 {
        Seq::empty()
    } else {
        let front = s.drop_last();
        let last = s.len() - 1;
        let before = filter_keeps_order(front, pred);
        let at = if pred(s.last()) {
            before.push(last)
        } else {
            before
        };
        assert forall|i: int| 0 <= i < at.len() implies {
            &&& 0 <= #[trigger] at[i] < s.len()
            &&& pred(s[at[i]])
            &&& s.filter(pred)[i] == s[at[i]]
        } by {
            if i < before.len() {
                assert(at[i] == before[i]);
                assert(front[before[i]] == s[before[i]]);
            }
        }
        assert forall|i: int, j: int| 0 <= i < j < at.len() implies (#[trigger] at[i]) < (
        #[trigger] at[j]) by {
            if j < before.len() {
                assert(before[i] < before[j]);
            } else {
                assert(at[i] == before[i]);
            }
        }
        assert forall|k: int| 0 <= k < s.len() && pred(#[trigger] s[k]) implies at.contains(k) by {
            if k < last {
                assert(front[k] == s[k]);
                let i = choose|i: int| 0 <= i < before.len() && before[i] == k;
                assert(at[i] == k);
            } else {
                assert(at[before.len() as int] == k);
            }
        }
        at
    }
}

} // verus!
