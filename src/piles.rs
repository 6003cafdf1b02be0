//! Splitting an ordered pile by a predicate on positions.
use vstd::prelude::*;

verus! {

/// The elements of `p` whose position is not picked, in the order they appear.
pub open spec fn kept<A>(p: Seq<A>, picked: spec_fn(int) -> bool) -> Seq<A>
    decreases p.len(),
{
    if p.len() == 0 {
        Seq::empty()
    } else {
        let rest = kept(p.drop_last(), picked);
        if picked(p.len() - 1) {
            rest
        } else {
            rest.push(p.last())
        }
    }
}

/// The elements of `p` whose position is picked, in the order they appear.
pub open spec fn taken<A>(p: Seq<A>, picked: spec_fn(int) -> bool) -> Seq<A>
    decreases p.len(),
{
    if p.len() == 0 {
        Seq::empty()
    } else {
        let rest = taken(p.drop_last(), picked);
        if picked(p.len() - 1) {
            rest.push(p.last())
        } else {
            rest
        }
    }
}

/// Splitting never creates or loses an element.
pub proof fn lemma_split_len<A>(p: Seq<A>, picked: spec_fn(int) -> bool)
    ensures
        kept(p, picked).len() + taken(p, picked).len() == p.len(),
    decreases p.len(),
{
    if p.len() > 0 {
        lemma_split_len(p.drop_last(), picked);
    }
}

/// With nothing picked, everything is kept.
pub proof fn lemma_none_picked<A>(p: Seq<A>, picked: spec_fn(int) -> bool)
    requires
        forall|i: int| 0 <= i < p.len() ==> !#[trigger] picked(i),
    ensures
        kept(p, picked) == p,
        taken(p, picked) == Seq::<A>::empty(),
    decreases p.len(),
{
    if p.len() > 0 {
        lemma_none_picked(p.drop_last(), picked);
        assert(p.drop_last().push(p.last()) =~= p);
    }
}

/// The positions listed in `picks`.
pub open spec fn listed(picks: Seq<usize>) -> spec_fn(int) -> bool {
    |i: int| 0 <= i && picks.contains(i as usize)
}

/// Splits `p` into the elements at unpicked and at picked positions, each in order.
/// `picks` lists which positions are picked; an entry past the end picks nothing.
pub fn split_pile<A: Copy>(p: &Vec<A>, picks: &Vec<usize>) -> (r: (Vec<A>, Vec<A>))
    ensures
        r.0@ == kept(p@, listed(picks@)),
        r.1@ == taken(p@, listed(picks@)),
{
    let mut keep: Vec<A> = Vec::new();
    let mut take: Vec<A> = Vec::new();
    let mut i: usize = 0;
    while i < p.len()
        invariant
            i <= p.len(),
            keep@ == kept(p@.take(i as int), listed(picks@)),
            take@ == taken(p@.take(i as int), listed(picks@)),
        decreases p.len() - i,
    {
        let ghost next = p@.take(i as int + 1);
        assert(next.drop_last() =~= p@.take(i as int));
        assert(next.last() == p@[i as int]);
        let hit = contains_index(picks, i);
        assert(listed(picks@)(i as int) == hit);
        if hit {
            take.push(p[i]);
        } else {
            keep.push(p[i]);
        }
        i = i + 1;
    }
    assert(p@.take(p.len() as int) =~= p@);
    (keep, take)
}

/// Whether `i` occurs in `v`.
pub fn contains_index(v: &Vec<usize>, i: usize) -> (r: bool)
    ensures
        r == v@.contains(i),
{
    let mut k: usize = 0;
    while k < v.len()
        invariant
            k <= v.len(),
            forall|j: int| 0 <= j < k ==> v@[j] != i,
        decreases v.len() - k,
    {
        if v[k] == i {
            return true;
        }
        k = k + 1;
    }
    false
}

} // verus!
