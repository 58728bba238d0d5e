//! A stable-id store whose deleted slots stay behind as tombstones.

use vstd::prelude::*;

verus! {

/// An arena of records addressed by their slot index.
///
/// A slot is either live (`Some`) or a tombstone (`None`). Slots are never
/// removed or reused, so an index keeps naming the same record for as long as
/// that record lives.
pub struct TombstoneArena<T> {
    slots: Vec<Option<T>>,
}

impl<T> View for TombstoneArena<T> {
    type V = Seq<Option<T>>;

    closed spec fn view(&self) -> Seq<Option<T>> {
        self.slots@
    }
}

impl<T> TombstoneArena<T> {
    /// Whether `index` names a live record of this arena.
    pub open spec fn is_live(&self, index: usize) -> bool {
        index < self@.len() && self@[index as int] is Some
    }

    /// The record that a live `index` names.
    pub open spec fn record(&self, index: usize) -> T {
        self@[index as int]->Some_0
    }

    /// An arena never has more slots than a `usize` counts.
    pub proof fn lemma_len(&self)
        ensures
            self@.len() <= usize::MAX,
    {
        assert(self.slots@.len() == self.slots.len());
    }

    /// An arena with no slots.
    pub fn new() -> (r: Self)
        ensures
            r@ == Seq::<Option<T>>::empty(),
    {
        TombstoneArena { slots: Vec::new() }
    }

    /// The index that the next allocation will receive.
    pub fn next_id(&self) -> (r: usize)
        ensures
            r == self@.len(),
    {
        self.slots.len()
    }

    /// Stores `value` in a fresh slot and returns its index.
    pub fn allocate(&mut self, value: T) -> (r: usize)
        ensures
            r == old(self)@.len(),
            final(self)@ == old(self)@.push(Some(value)),
    {
        let index = self.slots.len();
        self.slots.push(Some(value));
        index
    }

    /// The record at a live index.
    pub fn get(&self, index: usize) -> (r: &T)
        requires
            self.is_live(index),
        ensures
            *r == self.record(index),
    {
        self.slots[index].as_ref().unwrap()
    }

    /// Mutable access to the record at a live index; the other slots stay.
    pub fn get_mut(&mut self, index: usize) -> (r: &mut T)
        requires
            old(self).is_live(index),
        ensures
            *r == old(self).record(index),
            final(self)@ == old(self)@.update(index as int, Some(*final(r))),
    {
        self.slots[index].as_mut().unwrap()
    }

    /// Turns the slot at `index` into a tombstone and hands back what it held
    /// (`None` where it already was one).
    pub fn delete(&mut self, index: usize) -> (r: Option<T>)
        requires
            index < old(self)@.len(),
        ensures
            r == old(self)@[index as int],
            final(self)@ == old(self)@.update(index as int, None),
    {
        self.slots[index].take()
    }

    /// The slot at `index`: its record, or `None` for a tombstone.
    pub fn slot(&self, index: usize) -> (r: Option<&T>)
        requires
            index < self@.len(),
        ensures
            r is Some <==> self@[index as int] is Some,
            r is Some ==> *r->Some_0 == self.record(index),
    {
        self.slots[index].as_ref()
    }

    /// Each live index with its record, in ascending order of index.
    pub fn iter(&self) -> (r: Vec<(usize, &T)>)
        ensures
            r@.len() == live_indices(self@).len(),
            forall|k: int|
                0 <= k < r@.len() ==> (#[trigger] r@[k]).0 == live_indices(self@)[k] && *r@[k].1
                    == self.record(r@[k].0),
    {
        let mut r: Vec<(usize, &T)> = Vec::new();
        let mut i: usize = 0;
        while i < self.slots.len()
            invariant
                i <= self@.len(),
                r@.len() == live_indices(self@.take(i as int)).len(),
                forall|k: int|
                    0 <= k < r@.len() ==> (#[trigger] r@[k]).0 == live_indices(
                        self@.take(i as int),
                    )[k] && *r@[k].1 == self.record(r@[k].0),
            decreases self@.len() - i,
        {
            proof {
                assert(self@.take(i + 1).drop_last() == self@.take(i as int));
                assert(self@.take(i + 1).last() == self@[i as int]);
            }
            match self.slots[i].as_ref() {
                Some(v) => {
                    r.push((i, v));
                },
                None => {},
            }
            i += 1;
        }
        proof {
            assert(self@.take(self@.len() as int) == self@);
        }
        r
    }

    /// Mutable access to each live record, in ascending order of index.
    /// Afterwards each live slot holds what was left behind its reference;
    /// tombstones stay.
    pub fn iter_mut(&mut self) -> (r: Vec<&mut T>)
        ensures
            r@.len() == live_indices(old(self)@).len(),
            forall|k: int|
                0 <= k < r@.len() ==> *(#[trigger] r@[k]) == old(self).record(
                    live_indices(old(self)@)[k],
                ),
            final(self)@ == refill(old(self)@, r@.map_values(|x: &mut T| *final(x))),
    {
        let ghost s0 = self@;
        proof {
            self.lemma_len();
        }
        let mut r: Vec<&mut T> = Vec::new();
        let mut rest: &mut [Option<T>] = self.slots.as_mut_slice();
        let mut i: usize = 0;
        while rest.len() > 0
            invariant
                i + rest@.len() == s0.len(),
                s0.len() <= usize::MAX,
                rest@ == s0.subrange(i as int, s0.len() as int),
                r@.len() == live_indices(s0.take(i as int)).len(),
                forall|k: int|
                    0 <= k < r@.len() ==> *(#[trigger] r@[k]) == s0[live_indices(
                        s0.take(i as int),
                    )[k] as int]->Some_0,
                after_borrow(self.slots)@ == refill(
                    s0.take(i as int),
                    r@.map_values(|x: &mut T| *final(x)),
                ) + final(rest)@,
            decreases rest@.len(),
        {
            let ghost vals0 = r@.map_values(|x: &mut T| *final(x));
            let ghost pre = refill(s0.take(i as int), vals0);
            let (head, tail) = rest.split_at_mut(1);
            let ghost fh = final(head)@;
            proof {
                assert(s0.take(i + 1).drop_last() == s0.take(i as int));
                assert(s0.take(i + 1).last() == s0[i as int]);
                assert(head@[0] == s0[i as int]);
            }
            match head[0].as_mut() {
                Some(v) => {
                    let ghost fv = *final(v);
                    proof {
                        assert(fh =~= seq![Some(fv)]);
                    }
                    r.push(v);
                    proof {
                        let vals1 = r@.map_values(|x: &mut T| *final(x));
                        assert(vals1.drop_last() =~= vals0);
                        assert(vals1.last() == fv);
                        assert(refill(s0.take(i + 1), vals1) == pre.push(Some(fv)));
                    }
                },
                None => {
                    proof {
                        assert(fh =~= seq![None]);
                        assert(refill(s0.take(i + 1), vals0) == pre.push(None));
                    }
                },
            }
            rest = tail;
            i += 1;
        }
        proof {
            assert(s0.take(i as int) == s0);
        }
        r
    }
}

/// The slots `s` with the live ones, in ascending order, given the
/// records of `values` in turn.
pub open spec fn refill<T>(s: Seq<Option<T>>, values: Seq<T>) -> Seq<Option<T>>
    decreases s.len(),
{
    if s.len() == 0 {
        Seq::empty()
    } else if s.last() is Some {
        refill(s.drop_last(), values.drop_last()).push(Some(values.last()))
    } else {
        refill(s.drop_last(), values).push(None)
    }
}

/// The indices of the live slots of `s`, in ascending order.
pub open spec fn live_indices<T>(s: Seq<Option<T>>) -> Seq<usize>
    decreases s.len(),
{
    if s.len() == 0 {
        Seq::empty()
    } else {
        let rest = live_indices(s.drop_last());
        if s.last() is Some {
            rest.push((s.len() - 1) as usize)
        } else {
            rest
        }
    }
}

/// Every index that `live_indices` lists is in range and names a live slot.
pub proof fn lemma_live_indices<T>(s: Seq<Option<T>>)
    requires
        s.len() <= usize::MAX,
    ensures
        forall|k: int|
            0 <= k < live_indices(s).len() ==> (#[trigger] live_indices(s)[k]) < s.len()
                && s[live_indices(s)[k] as int] is Some,
    decreases s.len(),
{
    if s.len() > 0 {
        let p = s.drop_last();
        lemma_live_indices(p);
        let rest = live_indices(p);
        assert forall|k: int| 0 <= k < rest.len() implies rest[k] < s.len() - 1 && s[rest[k] as int] is Some by {
            assert(live_indices(p)[k] < p.len());
            assert(p[rest[k] as int] == s[rest[k] as int]);
        }
    }
}

/// `live_indices` depends only on which slots are live.
pub proof fn lemma_live_indices_shape<A, B>(s: Seq<Option<A>>, t: Seq<Option<B>>)
    requires
        s.len() == t.len(),
        forall|i: int| 0 <= i < s.len() ==> (s[i] is Some <==> t[i] is Some),
    ensures
        live_indices(s) == live_indices(t),
    decreases s.len(),
{
    if s.len() > 0 {
        lemma_live_indices_shape(s.drop_last(), t.drop_last());
    }
}

} // verus!
