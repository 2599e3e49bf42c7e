//! A generational slot map: dense storage, constant-time insert, remove and
//! lookup, and keys that go stale for good once their value is removed.

use vstd::prelude::*;

verus! {

/// The key of a value in a [`SlotMap`]: the slot it lives in and the
/// generation of that slot it was issued for.
#[derive(Clone, Copy, PartialEq, Eq, PartialOrd, Ord, Hash, Default, Debug, Structural)]
pub struct Key {
    pub index: u32,
    pub generation: u32,
}

impl Key {
    /// The key that is never valid in any map. It is also the default key.
    pub fn null() -> (k: Key)
        ensures
            k == (Key { index: 0, generation: 0 }),
    {
        Key { index: 0, generation: 0 }
    }
}

struct Slot<T> {
    /// The generation of the value that is, or last was, in the slot; at least 1.
    generation: u32,
    value: Option<T>,
    /// Whether the value was taken out to be put back: the slot waits for it.
    taken: bool,
}

/// A generational slot map.
pub struct SlotMap<T> {
    slots: Vec<Slot<T>>,
    /// Vacant slots that can still take a new generation.
    free: Vec<u32>,
    /// The number of occupied slots.
    live: usize,
}

impl<T> SlotMap<T> {
    spec fn occupied(&self, k: Key) -> bool {
        &&& (k.index as int) < self.slots@.len()
        &&& self.slots@[k.index as int].generation == k.generation
        &&& self.slots@[k.index as int].value is Some
    }

    /// The live keys and their values.
    pub closed spec fn view(&self) -> Map<Key, T> {
        Map::new(|k: Key| self.occupied(k), |k: Key| self.slots@[k.index as int].value->0)
    }

    /// Whether `k` was issued by this map and its value has been removed since.
    pub closed spec fn stale(&self, k: Key) -> bool {
        &&& (k.index as int) < self.slots@.len()
        &&& k.generation >= 1
        &&& (k.generation < self.slots@[k.index as int].generation || (k.generation
            == self.slots@[k.index as int].generation && self.slots@[k.index as int].value
            is None && !self.slots@[k.index as int].taken))
    }

    /// Whether the value under `k` was taken out and its place is kept.
    pub closed spec fn held_out(&self, k: Key) -> bool {
        &&& (k.index as int) < self.slots@.len()
        &&& self.slots@[k.index as int].generation == k.generation
        &&& self.slots@[k.index as int].taken
    }

    /// Whether the map takes another value: a vacant slot can be used again,
    /// or a slot can still be made.
    pub closed spec fn has_room(&self) -> bool {
        self.free@.len() > 0 || self.slots@.len() < u32::MAX
    }

    /// The live keys whose slot lies below `i`.
    spec fn live_below(&self, i: int) -> Set<Key> {
        Set::new(|k: Key| self.occupied(k) && (k.index as int) < i)
    }

    /// There are at most as many live keys below `i` as slots, and one fewer
    /// where the vacant slot `vacant` is among them.
    proof fn lemma_count(&self, i: nat, vacant: int)
        requires
            i <= self.slots@.len() <= u32::MAX,
            0 <= vacant < self.slots@.len() ==> self.slots@[vacant].value is None,
        ensures
            self.live_below(i as int).finite(),
            self.live_below(i as int).len() <= i - (if 0 <= vacant < i { 1int } else { 0int }),
        decreases i,
    {
        if i == 0 {
            assert(self.live_below(0) =~= Set::<Key>::empty());
        } else {
            self.lemma_count((i - 1) as nat, vacant);
            let j = (i - 1) as int;
            if self.slots@[j].value is Some {
                let key = Key { index: j as u32, generation: self.slots@[j].generation };
                assert(self.live_below(i as int) =~= self.live_below(j).insert(key));
            } else {
                assert(self.live_below(i as int) =~= self.live_below(j));
            }
        }
    }

    /// The representation invariant.
    pub closed spec fn wf(&self) -> bool {
        &&& self.slots@.len() <= u32::MAX
        &&& forall|i: int|
            0 <= i < self.slots@.len() ==> (#[trigger] self.slots@[i]).generation >= 1 && (
            self.slots@[i].taken ==> self.slots@[i].value is None)
        &&& forall|j: int|
            0 <= j < self.free@.len() ==> {
                &&& (#[trigger] self.free@[j] as int) < self.slots@.len()
                &&& self.slots@[self.free@[j] as int].value is None
                &&& !self.slots@[self.free@[j] as int].taken
                &&& self.slots@[self.free@[j] as int].generation < u32::MAX
            }
        &&& self.free@.no_duplicates()
        &&& self@.dom().finite()
        &&& self@.dom().len() == self.live
    }

    /// A stale key is not live, and neither is the null key.
    pub proof fn lemma_stale_not_live(&self, k: Key)
        requires
            self.wf(),
        ensures
            self.stale(k) ==> !self@.contains_key(k) && !self.held_out(k),
            self.held_out(k) ==> !self@.contains_key(k),
            !self@.contains_key(Key { index: 0, generation: 0 }),
            !self.held_out(Key { index: 0, generation: 0 }),
            self@.contains_key(k) ==> k.generation >= 1,
    {
    }

    /// The live keys are finitely many.
    pub proof fn lemma_finite(&self)
        requires
            self.wf(),
        ensures
            self@.dom().finite(),
    {
    }

    /// A slot has one live key.
    pub proof fn lemma_unique_index(&self, a: Key, b: Key)
        requires
            self@.contains_key(a),
            self@.contains_key(b),
            a.index == b.index,
        ensures
            a == b,
    {
    }

    /// The slot of a live key is not the last that an index can name.
    pub proof fn lemma_index_bound(&self, k: Key)
        requires
            self.wf(),
            self@.contains_key(k),
        ensures
            k.index < u32::MAX,
    {
    }

    /// An empty map.
    pub fn new() -> (m: SlotMap<T>)
        ensures
            m.wf(),
            m@ == Map::<Key, T>::empty(),
            m.has_room(),
            forall|k: Key| !m.stale(k) && !m.held_out(k),
    {
        let m = SlotMap { slots: Vec::new(), free: Vec::new(), live: 0 };
        assert(m@ =~= Map::<Key, T>::empty());
        m
    }

    /// Whether the map takes another value.
    pub fn is_full(&self) -> (r: bool)
        ensures
            r == !self.has_room(),
    {
        self.free.len() == 0 && self.slots.len() >= u32::MAX as usize
    }

    /// The number of live keys.
    pub fn len(&self) -> (n: usize)
        requires
            self.wf(),
        ensures
            n == self@.dom().len(),
    {
        self.live
    }

    /// Stores `value` under a key that was never live before.
    pub fn insert(&mut self, value: T) -> (r: Result<Key, T>)
        requires
            old(self).wf(),
        ensures
            final(self).wf(),
            forall|k: Key| old(self).stale(k) ==> final(self).stale(k),
            forall|k: Key| old(self).held_out(k) == final(self).held_out(k),
            match r {
                Ok(key) => {
                    &&& !old(self)@.contains_key(key)
                    &&& !old(self).stale(key)
                    &&& !old(self).held_out(key)
                    &&& final(self)@ == old(self)@.insert(key, value)
                },
                Err(v) => v == value && final(self)@ == old(self)@,
            },
            r is Ok <==> old(self).has_room(),
    {
        if self.free.len() > 0 {
            let ghost before = *self;
            let index: u32 = self.free.pop().unwrap();
            let i: usize = index as usize;
            let generation: u32 = self.slots[i].generation + 1;
            self.slots[i] = Slot { generation, value: Some(value), taken: false };
            let key = Key { index, generation };
            proof {
                assert(self.free@.no_duplicates()) by {
                    assert(self.free@ == before.free@.drop_last());
                }
                assert forall|j: int| 0 <= j < self.free@.len() implies {
                    &&& (#[trigger] self.free@[j] as int) < self.slots@.len()
                    &&& self.slots@[self.free@[j] as int].value is None
                    &&& !self.slots@[self.free@[j] as int].taken
                    &&& self.slots@[self.free@[j] as int].generation < u32::MAX
                } by {
                    assert(before.free@[j] == self.free@[j]);
                    assert(before.free@[j] != before.free@[before.free@.len() - 1]);
                }
                assert(self@ =~= before@.insert(key, value));
                before.lemma_count(before.slots@.len(), index as int);
                assert(before.live_below(before.slots@.len() as int) =~= before@.dom());
            }
            self.live = self.live + 1;
            assert(self@.dom() =~= before@.dom().insert(key));
            Ok(key)
        } else if self.slots.len() < u32::MAX as usize {
            let ghost before = *self;
            let index: u32 = self.slots.len() as u32;
            self.slots.push(Slot { generation: 1, value: Some(value), taken: false });
            let key = Key { index, generation: 1 };
            proof {
                assert(self@ =~= before@.insert(key, value));
                before.lemma_count(before.slots@.len(), before.slots@.len() as int);
                assert(before.live_below(before.slots@.len() as int) =~= before@.dom());
            }
            self.live = self.live + 1;
            assert(self@.dom() =~= before@.dom().insert(key));
            Ok(key)
        } else {
            Err(value)
        }
    }

    /// Removes the value under `key`, if it is live; the key is stale from then on.
    pub fn remove(&mut self, key: Key) -> (r: Option<T>)
        requires
            old(self).wf(),
        ensures
            final(self).wf(),
            forall|k: Key| old(self).stale(k) ==> final(self).stale(k),
            forall|k: Key| old(self).held_out(k) == final(self).held_out(k),
            final(self)@ == old(self)@.remove(key),
            match r {
                Some(v) => {
                    &&& old(self)@.contains_key(key)
                    &&& v == old(self)@[key]
                    &&& final(self).stale(key)
                },
                None => !old(self)@.contains_key(key),
            },
    {
        let i: usize = key.index as usize;
        if i >= self.slots.len() {
            assert(self@ =~= old(self)@.remove(key));
            return None;
        }
        if self.slots[i].generation != key.generation || self.slots[i].value.is_none() {
            assert(self@ =~= old(self)@.remove(key));
            return None;
        }
        let ghost before = *self;
        let generation: u32 = self.slots[i].generation;
        let mut slot = Slot { generation, value: None, taken: false };
        std::mem::swap(&mut self.slots[i], &mut slot);
        if generation < u32::MAX {
            proof {
                assert(!self.free@.contains(key.index)) by {
                    if self.free@.contains(key.index) {
                        let j = choose|j: int| 0 <= j < self.free@.len() && self.free@[j] == key.index;
                        assert(before.slots@[before.free@[j] as int].value is None);
                    }
                }
            }
            self.free.push(key.index);
            proof {
                assert forall|a: int, b: int|
                    0 <= a < self.free@.len() && 0 <= b < self.free@.len() && a != b implies self.free@[a]
                    != self.free@[b] by {
                    if a < before.free@.len() && b < before.free@.len() {
                        assert(before.free@[a] != before.free@[b]);
                    } else if a < before.free@.len() {
                        assert(before.free@.contains(before.free@[a]));
                    } else {
                        assert(before.free@.contains(before.free@[b]));
                    }
                }
            }
        }
        proof {
            assert(self@ =~= before@.remove(key));
            assert(before@.dom().contains(key));
        }
        self.live = self.live - 1;
        assert(self@.dom() =~= before@.dom().remove(key));
        slot.value
    }

    /// The value under `key`, if it is live.
    pub fn get(&self, key: Key) -> (r: Option<&T>)
        requires
            self.wf(),
        ensures
            match r {
                Some(v) => self@.contains_key(key) && *v == self@[key],
                None => !self@.contains_key(key),
            },
    {
        let i: usize = key.index as usize;
        if i >= self.slots.len() {
            return None;
        }
        if self.slots[i].generation != key.generation {
            return None;
        }
        self.slots[i].value.as_ref()
    }

    /// The value under `key`, if it is live, for writing.
    pub fn get_mut(&mut self, key: Key) -> (r: Option<&mut T>)
        requires
            old(self).wf(),
        ensures
            final(self).wf(),
            forall|k: Key| old(self).stale(k) ==> final(self).stale(k),
            forall|k: Key| old(self).held_out(k) == final(self).held_out(k),
            match r {
                Some(v) => {
                    &&& old(self)@.contains_key(key)
                    &&& *v == old(self)@[key]
                    &&& final(self)@ == old(self)@.insert(key, *final(v))
                },
                None => !old(self)@.contains_key(key) && final(self)@ == old(self)@,
            },
    {
        let i: usize = key.index as usize;
        if i >= self.slots.len() {
            return None;
        }
        if self.slots[i].generation != key.generation {
            return None;
        }
        proof {
            let before = *self;
            assert forall|m: SlotMap<T>|
                m.slots@.len() == before.slots@.len() && m.slots@ =~= before.slots@.update(
                    i as int,
                    m.slots@[i as int],
                ) && m.slots@[i as int].generation == key.generation && m.slots@[i as int].taken
                    == before.slots@[i as int].taken && (m.slots@[i as int].value is Some
                    <==> before.slots@[i as int].value is Some) implies (#[trigger] m@).dom() == before@.dom() by {
                assert(m@.dom() =~= before@.dom());
            }
        }
        match &mut self.slots[i].value {
            Some(v) => Some(v),
            None => None,
        }
    }

    /// Takes the value under `key` out, if it is live, and keeps its place:
    /// the key is not live until the value is put back with
    /// [`Self::restore`], and no other value gets the slot meanwhile.
    pub fn take(&mut self, key: Key) -> (r: Option<T>)
        requires
            old(self).wf(),
        ensures
            final(self).wf(),
            forall|k: Key| old(self).stale(k) == final(self).stale(k),
            final(self)@ == old(self)@.remove(key),
            match r {
                Some(v) => {
                    &&& old(self)@.contains_key(key)
                    &&& v == old(self)@[key]
                    &&& final(self).held_out(key)
                    &&& forall|k: Key| k != key ==> old(self).held_out(k) == final(self).held_out(k)
                },
                None => {
                    &&& !old(self)@.contains_key(key)
                    &&& forall|k: Key| old(self).held_out(k) == final(self).held_out(k)
                },
            },
    {
        let i: usize = key.index as usize;
        if i >= self.slots.len() {
            assert(self@ =~= old(self)@.remove(key));
            return None;
        }
        if self.slots[i].generation != key.generation || self.slots[i].value.is_none() {
            assert(self@ =~= old(self)@.remove(key));
            return None;
        }
        let ghost before = *self;
        let mut slot = Slot { generation: key.generation, value: None, taken: true };
        std::mem::swap(&mut self.slots[i], &mut slot);
        proof {
            assert(!self.free@.contains(key.index)) by {
                if self.free@.contains(key.index) {
                    let j = choose|j: int| 0 <= j < self.free@.len() && self.free@[j] == key.index;
                    assert(before.slots@[before.free@[j] as int].value is None);
                }
            }
            assert forall|j: int| 0 <= j < self.free@.len() implies {
                &&& (#[trigger] self.free@[j] as int) < self.slots@.len()
                &&& self.slots@[self.free@[j] as int].value is None
                &&& !self.slots@[self.free@[j] as int].taken
                &&& self.slots@[self.free@[j] as int].generation < u32::MAX
            } by {
                assert(self.free@.contains(self.free@[j]));
            }
            assert(self@ =~= before@.remove(key));
            assert(before@.dom().contains(key));
        }
        self.live = self.live - 1;
        assert(self@.dom() =~= before@.dom().remove(key));
        slot.value
    }

    /// Puts `value` back under `key`, from where a value was taken with
    /// [`Self::take`]; hands it back where no value was taken from there.
    pub fn restore(&mut self, key: Key, value: T) -> (r: Result<(), T>)
        requires
            old(self).wf(),
        ensures
            final(self).wf(),
            forall|k: Key| old(self).stale(k) == final(self).stale(k),
            r is Ok <==> old(self).held_out(key),
            match r {
                Ok(_) => {
                    &&& final(self)@ == old(self)@.insert(key, value)
                    &&& !final(self).held_out(key)
                    &&& forall|k: Key| k != key ==> old(self).held_out(k) == final(self).held_out(k)
                },
                Err(v) => {
                    &&& v == value
                    &&& final(self)@ == old(self)@
                    &&& forall|k: Key| old(self).held_out(k) == final(self).held_out(k)
                },
            },
    {
        let i: usize = key.index as usize;
        if i >= self.slots.len() {
            return Err(value);
        }
        if self.slots[i].generation != key.generation || !self.slots[i].taken {
            return Err(value);
        }
        let ghost before = *self;
        self.slots[i] = Slot { generation: key.generation, value: Some(value), taken: false };
        proof {
            assert forall|j: int| 0 <= j < self.free@.len() implies {
                &&& (#[trigger] self.free@[j] as int) < self.slots@.len()
                &&& self.slots@[self.free@[j] as int].value is None
                &&& !self.slots@[self.free@[j] as int].taken
                &&& self.slots@[self.free@[j] as int].generation < u32::MAX
            } by {
                assert(!before.slots@[before.free@[j] as int].taken);
            }
            assert(self@ =~= before@.insert(key, value));
            before.lemma_count(before.slots@.len(), i as int);
            assert(before.live_below(before.slots@.len() as int) =~= before@.dom());
        }
        self.live = self.live + 1;
        assert(self@.dom() =~= before@.dom().insert(key));
        Ok(())
    }

    /// Whether `key` is live.
    pub fn contains(&self, key: Key) -> (r: bool)
        requires
            self.wf(),
        ensures
            r == self@.contains_key(key),
    {
        self.get(key).is_some()
    }

    /// The live key of slot `index`, if the slot holds a value.
    pub fn key_at(&self, index: u32) -> (r: Option<Key>)
        requires
            self.wf(),
        ensures
            match r {
                Some(k) => k.index == index && self@.contains_key(k),
                None => forall|g: u32| !self@.contains_key(Key { index, generation: g }),
            },
    {
        let i: usize = index as usize;
        if i >= self.slots.len() {
            return None;
        }
        if self.slots[i].value.is_none() {
            return None;
        }
        Some(Key { index, generation: self.slots[i].generation })
    }

    /// The live keys, by ascending slot.
    pub fn keys(&self) -> (r: Vec<Key>)
        requires
            self.wf(),
        ensures
            r@.no_duplicates(),
            forall|k: Key| r@.contains(k) <==> self@.contains_key(k),
            forall|a: int, b: int| 0 <= a < b < r@.len() ==> r@[a].index < r@[b].index,
    {
        let mut out: Vec<Key> = Vec::new();
        let mut i: usize = 0;
        while i < self.slots.len()
            invariant
                self.wf(),
                i <= self.slots@.len(),
                forall|j: int| 0 <= j < out@.len() ==> (#[trigger] out@[j].index as int) < i,
                forall|j: int| 0 <= j < out@.len() ==> self@.contains_key(#[trigger] out@[j]),
                forall|a: int, b: int| 0 <= a < b < out@.len() ==> out@[a].index < out@[b].index,
                forall|k: Key| #[trigger] self@.contains_key(k) && (k.index as int) < i ==> out@.contains(k),
            decreases self.slots@.len() - i,
        {
            if self.slots[i].value.is_some() {
                let key = Key { index: i as u32, generation: self.slots[i].generation };
                let ghost prev = out@;
                out.push(key);
                proof {
                    assert forall|k: Key| self@.contains_key(k) && (k.index as int) < i + 1 implies out@.contains(
                        k,
                    ) by {
                        if (k.index as int) < i {
                            let j = choose|j: int| 0 <= j < prev.len() && prev[j] == k;
                            assert(out@[j] == k);
                        } else {
                            assert(k == key);
                            assert(out@[prev.len() as int] == k);
                        }
                    }
                }
            }
            i = i + 1;
        }
        proof {
            assert forall|k: Key| out@.contains(k) implies self@.contains_key(k) by {
                let j = choose|j: int| 0 <= j < out@.len() && out@[j] == k;
                assert(self@.contains_key(out@[j]));
            }
        }
        out
    }
}

} // verus!
