//! A set that identifies its contents by integer ids handed out on insertion.

use std::collections::HashMap;
use vstd::prelude::*;

verus! {

broadcast use vstd::std_specs::hash::group_hash_axioms;

/// A set of values, each reachable through the id that `insert` returned for it.
///
/// Ids start at 1 and increase with each insertion, so that 0 never names a value
/// and an id is never handed out twice.
pub struct ReferenceSet<T> {
    map: HashMap<usize, T>,
    next_id: usize,
}

impl<T> View for ReferenceSet<T> {
    type V = Map<usize, T>;

    /// The values in the set, by id.
    closed spec fn view(&self) -> Map<usize, T> {
        self.map@
    }
}

impl<T> ReferenceSet<T> {
    /// The id that the next `insert` hands out.
    pub closed spec fn next_key(&self) -> usize {
        self.next_id
    }

    /// Well-formedness: the set is finite, and its ids are positive and below the
    /// next id to hand out.
    pub closed spec fn wf(&self) -> bool {
        &&& self.map@.dom().finite()
        &&& self.next_id >= 1
        &&& forall|k: usize| #[trigger] self.map@.contains_key(k) ==> 1 <= k < self.next_id
    }

    /// Creates an empty set whose first id will be 1.
    pub fn new() -> (s: Self)
        ensures
            s.wf(),
            s@ == Map::<usize, T>::empty(),
            s.next_key() == 1,
    {
        ReferenceSet { map: HashMap::new(), next_id: 1 }
    }

    /// Inserts a new value into the set. This always creates a new entry, under a
    /// fresh id, which is returned; the id is later used to `take` the value back.
    pub fn insert(&mut self, value: T) -> (id: usize)
        requires
            old(self).wf(),
            old(self).next_key() < usize::MAX,
        ensures
            final(self).wf(),
            id == old(self).next_key(),
            id >= 1,
            !old(self)@.contains_key(id),
            final(self)@ == old(self)@.insert(id, value),
            final(self)@.len() == old(self)@.len() + 1,
            final(self).next_key() == id + 1,
            call_step(*old(self), *final(self), Some(id)),
    {
        let id = self.next_id;
        self.next_id = id + 1;
        self.map.insert(id, value);
        proof {
            assert(old(self)@.dom().finite());
        }
        id
    }

    /// Whether one more value can be inserted: ids are not exhausted.
    pub fn has_room(&self) -> (b: bool)
        ensures
            b == (self.next_key() < usize::MAX),
    {
        self.next_id < usize::MAX
    }

    /// Removes the value with the given id from the set, if present, and returns it.
    pub fn take(&mut self, i: usize) -> (r: Option<T>)
        requires
            old(self).wf(),
        ensures
            final(self).wf(),
            final(self)@ == old(self)@.remove(i),
            final(self).next_key() == old(self).next_key(),
            !old(self)@.contains_key(i) ==> final(self)@ == old(self)@,
            old(self)@.contains_key(i) ==> final(self)@.len() == old(self)@.len() - 1,
            call_step(*old(self), *final(self), None),
            r == (if old(self)@.contains_key(i) {
                Some(old(self)@[i])
            } else {
                None
            }),
    {
        let r = self.map.remove(&i);
        proof {
            if !old(self)@.contains_key(i) {
                assert(self.map@ =~= old(self)@);
            }
        }
        r
    }

    /// Whether the set holds a value under the given id.
    pub fn contains(&self, id: usize) -> (b: bool)
        ensures
            b == self@.contains_key(id),
    {
        self.map.contains_key(&id)
    }

    /// The number of values in the set.
    pub fn len(&self) -> (n: usize)
        ensures
            n == self@.len(),
    {
        self.map.len()
    }

    /// Whether the set holds no value.
    pub fn is_empty(&self) -> (b: bool)
        ensures
            b == (self@.len() == 0),
            b == (self@ == Map::<usize, T>::empty()),
    {
        proof {
            assert(self@.dom().finite());
            if self@.len() == 0 {
                self@.dom().lemma_len0_is_empty();
                assert(self@ =~= Map::<usize, T>::empty());
            }
        }
        self.map.is_empty()
    }
}

impl<T> Default for ReferenceSet<T> {
    fn default() -> (s: Self)
        ensures
            s.wf(),
            s@ == Map::<usize, T>::empty(),
            s.next_key() == 1,
    {
        ReferenceSet { map: HashMap::new(), next_id: 1 }
    }
}

/// 0 is never the id of a value in the set, so that it can stand for "no value".
pub proof fn lemma_zero_is_never_an_id<T>(s: ReferenceSet<T>)
    requires
        s.wf(),
    ensures
        !s@.contains_key(0),
{
}

/// Every id in the set is below the id that the next insertion hands out, and ids
/// only grow: an id is never handed out twice, so an id that was taken names no
/// value ever after.
pub proof fn lemma_ids_are_below_next_key<T>(s: ReferenceSet<T>)
    requires
        s.wf(),
    ensures
        s@.dom().finite(),
        s.next_key() >= 1,
        forall|id: usize| #[trigger] s@.contains_key(id) ==> 1 <= id < s.next_key(),
{
}

/// A value inserted under the id that insertion hands out is what taking that id
/// gives back, and taking it leaves the set as it was before the insertion.
pub proof fn lemma_take_after_insert<T>(s: ReferenceSet<T>, value: T)
    requires
        s.wf(),
    ensures
        ({
            let id = s.next_key();
            let inserted = s@.insert(id, value);
            &&& inserted.contains_key(id)
            &&& inserted[id] == value
            &&& inserted.remove(id) == s@
            &&& !inserted.remove(id).contains_key(id)
        }),
{
    let id = s.next_key();
    assert(!s@.contains_key(id));
    assert(s@.insert(id, value).remove(id) =~= s@);
}

/// What one call does to the next id: `insert` (which issued `Some(id)`) hands out
/// the next id and raises it by one; `take` (which issued `None`) leaves it.
pub open spec fn call_step<T>(
    before: ReferenceSet<T>,
    after: ReferenceSet<T>,
    issued: Option<usize>,
) -> bool {
    match issued {
        Some(id) => id == before.next_key() && after.next_key() == id + 1,
        None => after.next_key() == before.next_key(),
    }
}

/// The number of insertions among the first calls of a run.
pub open spec fn insertions(issued: Seq<Option<usize>>) -> nat
    decreases issued.len(),
{
    if issued.len() == 0 {
        0
    } else {
        insertions(issued.drop_last()) + if issued.last() is Some {
            1nat
        } else {
            0nat
        }
    }
}

proof fn lemma_insertions_grow(issued: Seq<Option<usize>>, i: int, j: int)
    requires
        0 <= i <= j <= issued.len(),
    ensures
        insertions(issued.take(i)) <= insertions(issued.take(j)),
        i < j && issued[i] is Some ==> insertions(issued.take(i)) < insertions(issued.take(j)),
    decreases j - i,
{
    if i < j {
        lemma_insertions_grow(issued, i, j - 1);
        assert(issued.take(j).drop_last() =~= issued.take(j - 1));
        if i == j - 1 {
            assert(issued.take(j).last() == issued[i]);
        }
    }
}

/// Over any run of `insert` and `take` calls on a set (state `states[i]` before the
/// i-th call, which issued `issued[i]`), ids only grow: the i-th call starts from
/// the first next id plus the insertions before it, each insertion hands out exactly
/// that id, so the ids issued are strictly increasing, never 0, and never handed out
/// twice, even after a `take`. On a set fresh from `new`, the n-th insertion (counting
/// from 0) hands out n + 1.
pub proof fn lemma_ids_increase_over_runs<T>(
    states: Seq<ReferenceSet<T>>,
    issued: Seq<Option<usize>>,
)
    requires
        states.len() == issued.len() + 1,
        states[0].wf(),
        forall|i: int|
            0 <= i < issued.len() ==> call_step(#[trigger] states[i], states[i + 1], issued[i]),
    ensures
        forall|i: int|
            0 <= i < states.len() ==> #[trigger] states[i].next_key() == states[0].next_key()
                + insertions(issued.take(i)),
        forall|i: int|
            0 <= i < issued.len() && #[trigger] issued[i] is Some ==> issued[i]->0
                == states[0].next_key() + insertions(issued.take(i)) && issued[i]->0 >= 1,
        forall|i: int, j: int|
            0 <= i < j < issued.len() && #[trigger] issued[i] is Some && #[trigger] issued[j] is Some
                ==> issued[i]->0 < issued[j]->0,
        states[0].next_key() == 1 ==> forall|i: int|
            0 <= i < issued.len() && #[trigger] issued[i] is Some ==> issued[i]->0 == insertions(
                issued.take(i),
            ) + 1,
{
    lemma_ids_are_below_next_key(states[0]);
    assert forall|i: int|
        0 <= i < states.len() implies #[trigger] states[i].next_key() == states[0].next_key()
        + insertions(issued.take(i)) by {
        lemma_next_key_after(states, issued, i);
    }
    assert forall|i: int, j: int|
        0 <= i < j < issued.len() && #[trigger] issued[i] is Some && #[trigger] issued[j] is Some
        implies issued[i]->0 < issued[j]->0 by {
        lemma_next_key_after(states, issued, i);
        lemma_next_key_after(states, issued, j);
        lemma_insertions_grow(issued, i, j);
    }
    assert forall|i: int|
        0 <= i < issued.len() && #[trigger] issued[i] is Some implies issued[i]->0
        == states[0].next_key() + insertions(issued.take(i)) && issued[i]->0 >= 1 by {
        lemma_next_key_after(states, issued, i);
    }
}

proof fn lemma_next_key_after<T>(states: Seq<ReferenceSet<T>>, issued: Seq<Option<usize>>, i: int)
    requires
        states.len() == issued.len() + 1,
        forall|i: int|
            0 <= i < issued.len() ==> call_step(#[trigger] states[i], states[i + 1], issued[i]),
        0 <= i < states.len(),
    ensures
        states[i].next_key() == states[0].next_key() + insertions(issued.take(i)),
    decreases i,
{
    if i == 0 {
        assert(issued.take(0) =~= Seq::<Option<usize>>::empty());
    } else {
        lemma_next_key_after(states, issued, i - 1);
        assert(issued.take(i).drop_last() =~= issued.take(i - 1));
        assert(issued.take(i).last() == issued[i - 1]);
        assert(call_step(states[i - 1], states[i], issued[i - 1]));
    }
}

} // verus!
