//! Choosing the best of a list under a preference that may leave candidates tied.
//!
//! Two ways of breaking ties occur: the first of the best candidates wins, as when a
//! stably sorted list is cut down to its head, or the last of them wins, as when a
//! maximum is kept while walking the list.

use vstd::prelude::*;

verus! {

/// `better` is a preference that ranks candidates into tiers: it is one way only, and not
/// being worse carries over.
pub open spec fn ranks_in_tiers<A>(better: spec_fn(A, A) -> bool) -> bool {
    &&& forall|a: A, b: A| #[trigger] better(a, b) ==> !better(b, a)
    &&& forall|a: A, b: A, c: A|
        #![trigger better(b, a), better(c, b)]
        !better(b, a) && !better(c, b) ==> !better(c, a)
}

/// The position of the first candidate that no other candidate is better than.
pub open spec fn first_best<A>(s: Seq<A>, better: spec_fn(A, A) -> bool) -> int
    decreases s.len(),
{
    if s.len() <= 1 {
        0
    } else {
        let i = first_best(s.drop_last(), better);
        if better(s.last(), s[i]) {
            s.len() - 1
        } else {
            i
        }
    }
}

/// The position of the last candidate that no other candidate is better than.
pub open spec fn last_best<A>(s: Seq<A>, better: spec_fn(A, A) -> bool) -> int
    decreases s.len(),
{
    if s.len() <= 1 {
        0
    } else {
        let i = last_best(s.drop_last(), better);
        if better(s[i], s.last()) {
            i
        } else {
            s.len() - 1
        }
    }
}

/// [`first_best`] is what its name says: nothing is better than the candidate at that
/// position, and it is better than every candidate in front of it.
pub proof fn lemma_first_best<A>(s: Seq<A>, better: spec_fn(A, A) -> bool)
    requires
        s.len() > 0,
        ranks_in_tiers(better),
    ensures
        0 <= first_best(s, better) < s.len(),
        forall|k: int| 0 <= k < s.len() ==> !better(#[trigger] s[k], s[first_best(s, better)]),
        forall|k: int|
            0 <= k < first_best(s, better) ==> better(s[first_best(s, better)], #[trigger] s[k]),
    decreases s.len(),
{
    if s.len() > 1 {
        let shorter = s.drop_last();
        lemma_first_best(shorter, better);
        let i = first_best(shorter, better);
        let last = s.last();
        assert(shorter[i] == s[i]);
        if better(last, s[i]) {
            assert forall|k: int| 0 <= k < s.len() implies !better(#[trigger] s[k], last) by {
                if k < s.len() - 1 {
                    assert(shorter[k] == s[k]);
                    assert(!better(s[k], s[i]));
                    assert(!better(s[i], last));
                }
            }
            assert forall|k: int| 0 <= k < s.len() - 1 implies better(last, #[trigger] s[k]) by {
                assert(shorter[k] == s[k]);
                assert(!better(s[k], s[i]));
                if !better(last, s[k]) {
                    assert(!better(last, s[i]));
                }
            }
        } else {
            assert forall|k: int| 0 <= k < s.len() implies !better(#[trigger] s[k], s[i]) by {
                if k < s.len() - 1 {
                    assert(shorter[k] == s[k]);
                }
            }
            assert forall|k: int| 0 <= k < i implies better(s[i], #[trigger] s[k]) by {
                assert(shorter[k] == s[k]);
            }
        }
    }
}

/// [`last_best`] is what its name says: nothing is better than the candidate at that
/// position, and it is better than every candidate behind it.
pub proof fn lemma_last_best<A>(s: Seq<A>, better: spec_fn(A, A) -> bool)
    requires
        s.len() > 0,
        ranks_in_tiers(better),
    ensures
        0 <= last_best(s, better) < s.len(),
        forall|k: int| 0 <= k < s.len() ==> !better(#[trigger] s[k], s[last_best(s, better)]),
        forall|k: int|
            last_best(s, better) < k < s.len() ==> better(
                s[last_best(s, better)],
                #[trigger] s[k],
            ),
    decreases s.len(),
{
    if s.len() > 1 {
        let shorter = s.drop_last();
        lemma_last_best(shorter, better);
        let i = last_best(shorter, better);
        let last = s.last();
        assert(shorter[i] == s[i]);
        if better(s[i], last) {
            assert forall|k: int| 0 <= k < s.len() implies !better(#[trigger] s[k], s[i]) by {
                if k < s.len() - 1 {
                    assert(shorter[k] == s[k]);
                }
            }
            assert forall|k: int| i < k < s.len() implies better(s[i], #[trigger] s[k]) by {
                if k < s.len() - 1 {
                    assert(shorter[k] == s[k]);
                }
            }
        } else {
            assert forall|k: int| 0 <= k < s.len() implies !better(#[trigger] s[k], last) by {
                if k < s.len() - 1 {
                    assert(shorter[k] == s[k]);
                    assert(!better(s[k], s[i]));
                    assert(!better(s[i], last));
                }
            }
        }
    }
}

/// A list into which `x` was put behind every entry that does not go behind it.
pub open spec fn inserted<A>(sorted: Seq<A>, x: A, before: spec_fn(A, A) -> bool) -> Seq<A>
    decreases sorted.len(),
{
    if sorted.len() > 0 && before(x, sorted.last()) {
        inserted(sorted.drop_last(), x, before).push(sorted.last())
    } else {
        sorted.push(x)
    }
}

/// The entries arranged so that none goes before one that precedes it; entries that tie
/// keep the order they came in.
pub open spec fn arranged<A>(entries: Seq<A>, before: spec_fn(A, A) -> bool) -> Seq<A>
    decreases entries.len(),
{
    if entries.len() == 0 {
        Seq::empty()
    } else {
        inserted(arranged(entries.drop_last(), before), entries.last(), before)
    }
}

/// No entry of the list goes before one that precedes it.
pub open spec fn in_order<A>(s: Seq<A>, before: spec_fn(A, A) -> bool) -> bool {
    forall|i: int, j: int| 0 <= i < j < s.len() ==> !before(s[j], s[i])
}

/// Inserting at position `at` is what [`inserted`] does, where `x` goes before all from
/// `at` on and not before the one in front of `at`.
pub proof fn lemma_inserted_at<A>(sorted: Seq<A>, x: A, before: spec_fn(A, A) -> bool, at: int)
    requires
        0 <= at <= sorted.len(),
        forall|k: int| at <= k < sorted.len() ==> before(x, #[trigger] sorted[k]),
        at > 0 ==> !before(x, sorted[at - 1]),
    ensures
        inserted(sorted, x, before) == sorted.insert(at, x),
    decreases sorted.len() - at,
{
    if at == sorted.len() {
        assert(sorted.insert(at, x) =~= sorted.push(x));
    } else {
        assert(before(x, sorted[sorted.len() - 1]));
        let shorter = sorted.drop_last();
        assert forall|k: int| at <= k < shorter.len() implies before(x, #[trigger] shorter[k]) by {
            assert(shorter[k] == sorted[k]);
        }
        lemma_inserted_at(shorter, x, before, at);
        assert(shorter.insert(at, x).push(sorted.last()) =~= sorted.insert(at, x));
    }
}

/// Inserting into a list that is in order keeps it in order, and adds `x` and nothing
/// else.
pub proof fn lemma_inserted_keeps_order<A>(sorted: Seq<A>, x: A, before: spec_fn(A, A) -> bool)
    requires
        ranks_in_tiers(before),
        in_order(sorted, before),
    ensures
        in_order(inserted(sorted, x, before), before),
        inserted(sorted, x, before).len() == sorted.len() + 1,
        inserted(sorted, x, before).to_multiset() == sorted.to_multiset().insert(x),
        forall|k: int|
            0 <= k < inserted(sorted, x, before).len() ==> #[trigger] inserted(sorted, x, before)[k]
                == x || sorted.contains(inserted(sorted, x, before)[k]),
    decreases sorted.len(),
{
    broadcast use vstd::seq_lib::group_to_multiset_ensures;

    let out = inserted(sorted, x, before);
    if sorted.len() > 0 && before(x, sorted.last()) {
        let shorter = sorted.drop_last();
        let last = sorted.last();
        assert forall|i: int, j: int| 0 <= i < j < shorter.len() implies !before(
            shorter[j],
            shorter[i],
        ) by {
            assert(shorter[i] == sorted[i] && shorter[j] == sorted[j]);
        }
        lemma_inserted_keeps_order(shorter, x, before);
        let inner = inserted(shorter, x, before);
        assert(out == inner.push(last));
        assert(!before(last, x));
        assert forall|k: int| 0 <= k < shorter.len() implies !before(last, shorter[k]) by {
            assert(shorter[k] == sorted[k]);
        }
        assert forall|i: int, j: int| 0 <= i < j < out.len() implies !before(out[j], out[i]) by {
            if j < inner.len() {
                assert(out[i] == inner[i] && out[j] == inner[j]);
            } else {
                assert(out[j] == last);
                assert(out[i] == inner[i]);
                if inner[i] != x {
                    assert(shorter.contains(inner[i]));
                    let m = choose|m: int| 0 <= m < shorter.len() && shorter[m] == inner[i];
                    assert(!before(last, shorter[m]));
                }
            }
        }
        assert(sorted =~= shorter.push(last));
        assert forall|k: int| 0 <= k < out.len() implies #[trigger] out[k] == x || sorted.contains(
            out[k],
        ) by {
            if k < inner.len() {
                assert(out[k] == inner[k]);
                if inner[k] != x {
                    let m = choose|m: int| 0 <= m < shorter.len() && shorter[m] == inner[k];
                    assert(sorted[m] == inner[k]);
                }
            } else {
                assert(out[k] == sorted[sorted.len() - 1]);
            }
        }
    } else {
        assert(out == sorted.push(x));
        assert forall|i: int, j: int| 0 <= i < j < out.len() implies !before(out[j], out[i]) by {
            if j == sorted.len() {
                assert(out[i] == sorted[i]);
                assert(out[j] == x);
                assert(!before(x, sorted[sorted.len() - 1]));
                if i < sorted.len() - 1 {
                    assert(!before(sorted[sorted.len() - 1], sorted[i]));
                }
            } else {
                assert(out[i] == sorted[i] && out[j] == sorted[j]);
            }
        }
        assert forall|k: int| 0 <= k < out.len() implies #[trigger] out[k] == x || sorted.contains(
            out[k],
        ) by {
            if k < sorted.len() {
                assert(out[k] == sorted[k]);
            }
        }
    }
}

/// The arrangement is in order and holds exactly the entries given, each as often as it
/// was given.
pub proof fn lemma_arranged_is_sorted<A>(entries: Seq<A>, before: spec_fn(A, A) -> bool)
    requires
        ranks_in_tiers(before),
    ensures
        in_order(arranged(entries, before), before),
        arranged(entries, before).len() == entries.len(),
        arranged(entries, before).to_multiset() == entries.to_multiset(),
    decreases entries.len(),
{
    broadcast use vstd::seq_lib::group_to_multiset_ensures;

    if entries.len() > 0 {
        lemma_arranged_is_sorted(entries.drop_last(), before);
        lemma_inserted_keeps_order(arranged(entries.drop_last(), before), entries.last(), before);
        assert(entries =~= entries.drop_last().push(entries.last()));
    } else {
        assert(entries.to_multiset() =~= arranged(entries, before).to_multiset());
    }
}

} // verus!
