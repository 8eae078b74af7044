//! Facts about `Seq::filter` that the deleting operations rest on.

use vstd::prelude::*;

verus! {

/// A filter that every element passes keeps the sequence as it is.
pub proof fn lemma_filter_keeps_all<A>(s: Seq<A>, keep: spec_fn(A) -> bool)
    requires
        forall|i: int| 0 <= i < s.len() ==> keep(#[trigger] s[i]),
    ensures
        s.filter(keep) == s,
    decreases s.len(),
{
    if s.len() == 0 {
        reveal(Seq::filter);
    } else {
        let front = s.drop_last();
        lemma_filter_keeps_all(front, keep);
        front.lemma_filter_push(s.last(), keep);
        assert(front.push(s.last()) =~= s);
    }
}

/// A filter that exactly one element fails removes that element.
pub proof fn lemma_filter_drops_one<A>(s: Seq<A>, keep: spec_fn(A) -> bool, at: int)
    requires
        0 <= at < s.len(),
        !keep(s[at]),
        forall|i: int| 0 <= i < s.len() && i != at ==> keep(#[trigger] s[i]),
    ensures
        s.filter(keep) == s.remove(at),
    decreases s.len(),
{
    let front = s.drop_last();
    front.lemma_filter_push(s.last(), keep);
    assert(front.push(s.last()) =~= s);
    if at == s.len() - 1 {
        lemma_filter_keeps_all(front, keep);
        assert(s.remove(at) =~= front);
    } else {
        lemma_filter_drops_one(front, keep, at);
        assert(front.remove(at).push(s.last()) =~= s.remove(at));
    }
}

/// What a filter keeps, it keeps in order: each element of the result comes
/// from the sequence and passes the filter, and of two elements of the
/// result the earlier one stood earlier in the sequence. `origin` gives the
/// index that each element of the result came from.
pub proof fn lemma_filter_origin<A>(s: Seq<A>, keep: spec_fn(A) -> bool) -> (origin: Seq<int>)
    ensures
        origin.len() == s.filter(keep).len(),
        forall|k: int|
            0 <= k < origin.len() ==> 0 <= #[trigger] origin[k] < s.len() && s[origin[k]]
                == s.filter(keep)[k] && keep(s[origin[k]]),
        forall|k: int, l: int|
            0 <= k < l < origin.len() ==> #[trigger] origin[k] < #[trigger] origin[l],
        forall|i: int|
            0 <= i < s.len() && keep(s[i]) ==> exists|k: int|
                0 <= k < origin.len() && #[trigger] origin[k] == i,
    decreases s.len(),
{
    if s.len() == 0 {
        reveal(Seq::filter);
        Seq::empty()
    } else {
        let front = s.drop_last();
        let before = lemma_filter_origin(front, keep);
        front.lemma_filter_push(s.last(), keep);
        assert(front.push(s.last()) =~= s);
        if keep(s.last()) {
            let origin = before.push(s.len() - 1);
            assert forall|i: int| 0 <= i < s.len() && keep(s[i]) implies exists|k: int|
                0 <= k < origin.len() && #[trigger] origin[k] == i by {
                if i < s.len() - 1 {
                    let k = choose|k: int| 0 <= k < before.len() && #[trigger] before[k] == i;
                    assert(origin[k] == i);
                } else {
                    assert(origin[before.len() as int] == i);
                }
            }
            origin
        } else {
            assert forall|i: int| 0 <= i < s.len() && keep(s[i]) implies exists|k: int|
                0 <= k < before.len() && #[trigger] before[k] == i by {
                assert(keep(front[i]));
            }
            before
        }
    }
}

} // verus!
