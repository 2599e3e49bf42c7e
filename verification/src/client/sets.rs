//! The chunks a client has and the entities it sees: sets that remember
//! the order in which their elements came. A hash set answers whether an
//! element is there; a list beside it fixes the order in which the set is
//! walked, which a hash set leaves open.

use std::collections::HashSet;
use vstd::prelude::*;
use vstd::std_specs::hash::*;
use crate::entity::EntityId;
use crate::geometry::ChunkPos;
use crate::seqs::{copy_vec, lemma_push_no_duplicates};

verus! {

broadcast use vstd::std_specs::hash::group_hash_axioms;

/// The number under which the index of a [`ChunkSet`] holds `p`: both
/// coordinates, moved into the naturals, side by side.
spec fn chunk_code(p: ChunkPos) -> u64 {
    ((p.x + 0x8000_0000) * 0x1_0000_0000 + (p.z + 0x8000_0000)) as u64
}

/// Two positions with one code are one position.
proof fn lemma_chunk_code(p: ChunkPos, q: ChunkPos)
    ensures
        chunk_code(p) == chunk_code(q) <==> p == q,
{
}

fn code_of_chunk(p: ChunkPos) -> (k: u64)
    ensures
        k == chunk_code(p),
{
    let x: u64 = (p.x as i64 + 0x8000_0000) as u64;
    let z: u64 = (p.z as i64 + 0x8000_0000) as u64;
    x * 0x1_0000_0000 + z
}

/// The number under which the index of an [`EntitySet`] holds `id`: slot
/// and generation side by side.
spec fn entity_code(id: EntityId) -> u64 {
    (id.0.index * 0x1_0000_0000 + id.0.generation) as u64
}

/// Two identifiers with one code are one identifier.
proof fn lemma_entity_code(a: EntityId, b: EntityId)
    ensures
        entity_code(a) == entity_code(b) <==> a == b,
{
}

fn code_of_entity(id: EntityId) -> (k: u64)
    ensures
        k == entity_code(id),
{
    let index: u64 = id.0.index as u64;
    let generation: u64 = id.0.generation as u64;
    index * 0x1_0000_0000 + generation
}

/// What a list holds once an element is put behind it.
proof fn lemma_push_contains<T>(s: Seq<T>, x: T, y: T)
    ensures
        s.push(x).contains(y) <==> s.contains(y) || y == x,
{
    if s.contains(y) {
        let i = choose|i: int| 0 <= i < s.len() && s[i] == y;
        assert(s.push(x)[i] == y);
    }
    if y == x {
        assert(s.push(x)[s.len() as int] == y);
    }
}

/// The positions of the chunks that a client has, in the order they came, none of them twice.
pub struct ChunkSet {
    items: Vec<ChunkPos>,
    index: HashSet<u64>,
}

impl ChunkSet {
    /// Nothing stands twice, and the index holds the codes of what the list
    /// holds.
    #[verifier::type_invariant]
    spec fn sound(&self) -> bool {
        &&& self.items@.no_duplicates()
        &&& forall|x: ChunkPos| self.items@.contains(x) <==> #[trigger] self.index@.contains(chunk_code(x))
    }

    /// What the set holds, in the order it came.
    pub closed spec fn view(&self) -> Seq<ChunkPos> {
        self.items@
    }

    /// The empty set.
    pub fn new() -> (r: ChunkSet)
        ensures
            r@ == Seq::<ChunkPos>::empty(),
    {
        ChunkSet { items: Vec::new(), index: HashSet::new() }
    }

    /// How many the set holds, each of them once.
    pub fn len(&self) -> (n: usize)
        ensures
            n == self@.len(),
            self@.no_duplicates(),
    {
        proof {
            use_type_invariant(self);
        }
        self.items.len()
    }

    /// The `i`-th that came.
    pub fn get(&self, i: usize) -> (x: ChunkPos)
        requires
            i < self@.len(),
        ensures
            x == self@[i as int],
    {
        self.items[i]
    }

    /// Whether the set holds `x`.
    pub fn contains(&self, x: ChunkPos) -> (r: bool)
        ensures
            r == self@.contains(x),
    {
        proof {
            use_type_invariant(self);
        }
        let k: u64 = code_of_chunk(x);
        self.index.contains(&k)
    }

    /// Puts `x` in the set, behind what it holds; `false`, and nothing
    /// changed, where the set holds it already.
    pub fn insert(&mut self, x: ChunkPos) -> (r: bool)
        ensures
            r == !old(self)@.contains(x),
            final(self)@ == (if r {
                old(self)@.push(x)
            } else {
                old(self)@
            }),
    {
        let k: u64 = code_of_chunk(x);
        let mut taken = ChunkSet::new();
        proof {
            use_type_invariant(&*self);
            use_type_invariant(&taken);
        }
        std::mem::swap(self, &mut taken);
        let ChunkSet { items, index } = taken;
        let mut items = items;
        let mut index = index;
        let fresh: bool = index.insert(k);
        if fresh {
            proof {
                lemma_push_no_duplicates(items@, x);
            }
            items.push(x);
        }
        proof {
            assert forall|y: ChunkPos| items@.contains(y) <==> #[trigger] index@.contains(
                chunk_code(y),
            ) by {
                lemma_chunk_code(x, y);
                if fresh {
                    lemma_push_contains(old(self).items@, x, y);
                }
            }
        }
        *self = ChunkSet { items, index };
        fresh
    }

    /// Puts `x`, which the set lacks, behind what it holds.
    pub fn push_new(&mut self, x: ChunkPos)
        requires
            !old(self)@.contains(x),
        ensures
            final(self)@ == old(self)@.push(x),
    {
        let _ = self.insert(x);
    }

    /// Empties the set.
    pub fn clear(&mut self)
        ensures
            final(self)@ == Seq::<ChunkPos>::empty(),
    {
        *self = ChunkSet::new();
    }

    /// A copy of what the set holds, in the order it came.
    pub fn to_vec(&self) -> (r: Vec<ChunkPos>)
        ensures
            r@ == self@,
            r@.no_duplicates(),
    {
        proof {
            use_type_invariant(self);
        }
        copy_vec(&self.items)
    }
}

/// The entities that a client sees, in the order they came, none of them twice.
pub struct EntitySet {
    items: Vec<EntityId>,
    index: HashSet<u64>,
}

impl EntitySet {
    /// Nothing stands twice, and the index holds the codes of what the list
    /// holds.
    #[verifier::type_invariant]
    spec fn sound(&self) -> bool {
        &&& self.items@.no_duplicates()
        &&& forall|x: EntityId| self.items@.contains(x) <==> #[trigger] self.index@.contains(entity_code(x))
    }

    /// What the set holds, in the order it came.
    pub closed spec fn view(&self) -> Seq<EntityId> {
        self.items@
    }

    /// The empty set.
    pub fn new() -> (r: EntitySet)
        ensures
            r@ == Seq::<EntityId>::empty(),
    {
        EntitySet { items: Vec::new(), index: HashSet::new() }
    }

    /// How many the set holds, each of them once.
    pub fn len(&self) -> (n: usize)
        ensures
            n == self@.len(),
            self@.no_duplicates(),
    {
        proof {
            use_type_invariant(self);
        }
        self.items.len()
    }

    /// The `i`-th that came.
    pub fn get(&self, i: usize) -> (x: EntityId)
        requires
            i < self@.len(),
        ensures
            x == self@[i as int],
    {
        self.items[i]
    }

    /// Whether the set holds `x`.
    pub fn contains(&self, x: EntityId) -> (r: bool)
        ensures
            r == self@.contains(x),
    {
        proof {
            use_type_invariant(self);
        }
        let k: u64 = code_of_entity(x);
        self.index.contains(&k)
    }

    /// Puts `x` in the set, behind what it holds; `false`, and nothing
    /// changed, where the set holds it already.
    pub fn insert(&mut self, x: EntityId) -> (r: bool)
        ensures
            r == !old(self)@.contains(x),
            final(self)@ == (if r {
                old(self)@.push(x)
            } else {
                old(self)@
            }),
    {
        let k: u64 = code_of_entity(x);
        let mut taken = EntitySet::new();
        proof {
            use_type_invariant(&*self);
            use_type_invariant(&taken);
        }
        std::mem::swap(self, &mut taken);
        let EntitySet { items, index } = taken;
        let mut items = items;
        let mut index = index;
        let fresh: bool = index.insert(k);
        if fresh {
            proof {
                lemma_push_no_duplicates(items@, x);
            }
            items.push(x);
        }
        proof {
            assert forall|y: EntityId| items@.contains(y) <==> #[trigger] index@.contains(
                entity_code(y),
            ) by {
                lemma_entity_code(x, y);
                if fresh {
                    lemma_push_contains(old(self).items@, x, y);
                }
            }
        }
        *self = EntitySet { items, index };
        fresh
    }

    /// Puts `x`, which the set lacks, behind what it holds.
    pub fn push_new(&mut self, x: EntityId)
        requires
            !old(self)@.contains(x),
        ensures
            final(self)@ == old(self)@.push(x),
    {
        let _ = self.insert(x);
    }

    /// Empties the set.
    pub fn clear(&mut self)
        ensures
            final(self)@ == Seq::<EntityId>::empty(),
    {
        *self = EntitySet::new();
    }

    /// A copy of what the set holds, in the order it came.
    pub fn to_vec(&self) -> (r: Vec<EntityId>)
        ensures
            r@ == self@,
            r@.no_duplicates(),
    {
        proof {
            use_type_invariant(self);
        }
        copy_vec(&self.items)
    }
}

} // verus!
