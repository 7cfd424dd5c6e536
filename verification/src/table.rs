//! Fixed-capacity slot tables: the shared vocabulary used by every bounded
//! registry of the services (first free slot, occupancy, compaction).

use vstd::prelude::*;

verus! {

/// `i` is the lowest empty slot of `s`.
pub open spec fn is_first_free<T>(s: Seq<Option<T>>, i: int) -> bool {
    &&& 0 <= i < s.len()
    &&& s[i] is None
    &&& forall|j: int| 0 <= j < i ==> (#[trigger] s[j]) is Some
}

/// The lowest empty slot of `s` (meaningful when there is one).
pub open spec fn first_free_index<T>(s: Seq<Option<T>>) -> int {
    choose|i: int| is_first_free(s, i)
}

pub proof fn lemma_first_free_index<T>(s: Seq<Option<T>>, i: int)
    requires
        is_first_free(s, i),
    ensures
        first_free_index(s) == i,
{
    let c = first_free_index(s);
    assert(is_first_free(s, c));
    if c < i {
        assert(s[c] is Some);
    }
    if c > i {
        assert(s[i] is Some);
    }
}

/// Every slot of `s` is occupied.
pub open spec fn all_full<T>(s: Seq<Option<T>>) -> bool {
    forall|j: int| 0 <= j < s.len() ==> (#[trigger] s[j]) is Some
}

/// The occupied slots of `s`, in slot order.
pub open spec fn compact<T>(s: Seq<Option<T>>) -> Seq<T>
    decreases s.len(),
{
    if s.len() == 0 {
        Seq::empty()
    } else {
        match s.last() {
            Some(x) => compact(s.drop_last()).push(x),
            None => compact(s.drop_last()),
        }
    }
}

/// Number of occupied slots of `s`.
pub open spec fn count_some<T>(s: Seq<Option<T>>) -> nat {
    compact(s).len()
}

pub proof fn lemma_compact_len<T>(s: Seq<Option<T>>)
    ensures
        compact(s).len() <= s.len(),
    decreases s.len(),
{
    if s.len() > 0 {
        lemma_compact_len(s.drop_last());
    }
}

/// The occupied slots of `s` moved to the front, in order.
pub open spec fn packed<T>(s: Seq<Option<T>>) -> Seq<Option<T>> {
    Seq::new(s.len(), |i: int| if i < compact(s).len() { Some(compact(s)[i]) } else { None })
}

/// Every compacted item comes from an occupied slot, and every occupied slot
/// appears in the compaction.
pub proof fn lemma_compact_members<T>(s: Seq<Option<T>>)
    ensures
        forall|j: int| 0 <= j < compact(s).len() ==> exists|i: int| 0 <= i < s.len() && s[i] == Some(#[trigger] compact(s)[j]),
        forall|i: int| 0 <= i < s.len() && (#[trigger] s[i]) is Some ==> exists|j: int| 0 <= j < compact(s).len() && compact(s)[j] == s[i]->Some_0,
    decreases s.len(),
{
    if s.len() > 0 {
        let p = s.drop_last();
        lemma_compact_members(p);
        lemma_compact_len(p);
        assert forall|j: int| 0 <= j < compact(s).len() implies exists|i: int| 0 <= i < s.len() && s[i] == Some(#[trigger] compact(s)[j]) by {
            if j < compact(p).len() {
                let i = choose|i: int| 0 <= i < p.len() && p[i] == Some(compact(p)[j]);
                assert(s[i] == Some(compact(s)[j]));
            } else {
                assert(s[s.len() - 1] == Some(compact(s)[j]));
            }
        }
        assert forall|i: int| 0 <= i < s.len() && (#[trigger] s[i]) is Some implies exists|j: int| 0 <= j < compact(s).len() && compact(s)[j] == s[i]->Some_0 by {
            if i < s.len() - 1 {
                assert(p[i] == s[i]);
                let j = choose|j: int| 0 <= j < compact(p).len() && compact(p)[j] == p[i]->Some_0;
                assert(compact(s)[j] == s[i]->Some_0);
            } else {
                assert(compact(s)[compact(s).len() - 1] == s[i]->Some_0);
            }
        }
    }
}

/// Lowest empty slot of a fixed table.
pub fn find_free<T: Copy, const N: usize>(slots: &[Option<T>; N]) -> (r: Option<usize>)
    ensures
        match r {
            Some(i) => is_first_free(slots@, i as int),
            None => all_full(slots@),
        },
{
    let mut i: usize = 0;
    while i < N
        invariant
            slots@.len() == N,
            i <= N,
            forall|j: int| 0 <= j < i ==> (#[trigger] slots@[j]) is Some,
        decreases N - i,
    {
        if slots[i].is_none() {
            return Some(i);
        }
        i += 1;
    }
    None
}

/// A table with every slot empty has no occupied slot.
pub proof fn lemma_count_empty<T>(s: Seq<Option<T>>)
    requires
        forall|i: int| 0 <= i < s.len() ==> (#[trigger] s[i]) is None,
    ensures
        count_some(s) == 0,
    decreases s.len(),
{
    if s.len() > 0 {
        assert forall|i: int| 0 <= i < s.len() - 1 implies (#[trigger] s.drop_last()[i]) is None by {
            assert(s[i] is None);
        }
        lemma_count_empty(s.drop_last());
        assert(s[s.len() - 1] is None);
    }
}

/// Filling an empty slot adds one occupied slot.
pub proof fn lemma_count_fill<T>(s: Seq<Option<T>>, i: int, x: T)
    requires
        0 <= i < s.len(),
        s[i] is None,
    ensures
        count_some(s.update(i, Some(x))) == count_some(s) + 1,
    decreases s.len(),
{
    let t = s.update(i, Some(x));
    if i == s.len() - 1 {
        assert(t.drop_last() =~= s.drop_last());
    } else {
        lemma_count_fill(s.drop_last(), i, x);
        assert(t.drop_last() =~= s.drop_last().update(i, Some(x)));
    }
}

/// Tables occupied at the same slots have the same number of occupied slots.
pub proof fn lemma_count_same_shape<T, U>(s: Seq<Option<T>>, t: Seq<Option<U>>)
    requires
        s.len() == t.len(),
        forall|i: int| 0 <= i < s.len() ==> ((#[trigger] s[i]) is Some <==> t[i] is Some),
    ensures
        count_some(s) == count_some(t),
    decreases s.len(),
{
    if s.len() > 0 {
        lemma_count_same_shape(s.drop_last(), t.drop_last());
        assert(s.last() is Some <==> t.last() is Some);
    }
}

/// A table with an empty slot has a lowest one.
pub proof fn lemma_first_free_exists<T>(s: Seq<Option<T>>)
    requires
        !all_full(s),
    ensures
        is_first_free(s, first_free_index(s)),
    decreases s.len(),
{
    if all_full(s.drop_last()) {
        assert(s.last() is None) by {
            if s.last() is Some {
                assert forall|j: int| 0 <= j < s.len() implies (#[trigger] s[j]) is Some by {
                    if j < s.len() - 1 {
                        assert(s.drop_last()[j] is Some);
                    }
                }
            }
        }
        assert forall|j: int| 0 <= j < s.len() - 1 implies (#[trigger] s[j]) is Some by {
            assert(s.drop_last()[j] is Some);
        }
        assert(is_first_free(s, s.len() - 1));
    } else {
        lemma_first_free_exists(s.drop_last());
        let i = first_free_index(s.drop_last());
        assert(s.drop_last()[i] is None);
        assert forall|j: int| 0 <= j < i implies (#[trigger] s[j]) is Some by {
            assert(s.drop_last()[j] is Some);
        }
        assert(is_first_free(s, i));
    }
    let c = first_free_index(s);
    assert(is_first_free(s, c));
}

} // verus!
