//! Worlds: their chunks, their roster, and the index of where their
//! entities are.

use vstd::prelude::*;
use crate::chunk::Chunk;
use crate::entity::{Entities, EntityId};
use crate::fixed::Fixed;
use crate::geometry::{box_within_spec, Aabb, ChunkPos, Vec3};
use crate::ident::DimensionId;
use crate::player_list::PlayerList;
use crate::slotmap::{Key, SlotMap};

verus! {

/// The stable identifier of a world. The default identifier is never valid.
#[derive(Clone, Copy, PartialEq, Eq, PartialOrd, Ord, Hash, Default, Debug, Structural)]
pub struct WorldId(pub Key);

/// A chunk and where it stands.
#[derive(Debug)]
pub struct ChunkEntry {
    pub pos: ChunkPos,
    pub chunk: Chunk,
}

/// The chunks of a world. Where a position stands twice, the first entry
/// is the chunk at that position.
#[derive(Debug)]
pub struct Chunks {
    pub entries: Vec<ChunkEntry>,
}

/// An entity and the box it fills.
#[derive(Clone, Copy, PartialEq, Eq, Debug, Structural)]
pub struct IndexEntry {
    pub id: EntityId,
    pub hitbox: Aabb,
}

/// Where the entities of a world are. Rebuilt once per tick, after the game
/// moved them and before the clients are updated.
#[derive(Debug)]
pub struct SpatialIndex {
    pub entries: Vec<IndexEntry>,
}

/// What a world is, apart from what is in it.
#[derive(Debug)]
pub struct WorldMeta {
    pub dimension: DimensionId,
    pub is_flat: bool,
    pub player_list: PlayerList,
}

/// A world.
#[derive(Debug)]
pub struct World {
    pub chunks: Chunks,
    pub spatial_index: SpatialIndex,
    pub meta: WorldMeta,
}

/// The worlds of a server.
pub struct Worlds {
    sm: SlotMap<World>,
}

/// The first index from `from` on at which `entries` has `pos`.
pub open spec fn chunk_index(entries: Seq<ChunkEntry>, pos: ChunkPos, from: int) -> Option<int>
    decreases entries.len() - from,
{
    if from < 0 || from >= entries.len() {
        None
    } else if entries[from].pos == pos {
        Some(from)
    } else {
        chunk_index(entries, pos, from + 1)
    }
}

/// The entities of `entries` whose box comes within `radius` of `p`, in order.
pub open spec fn query_spec(entries: Seq<IndexEntry>, p: Vec3, radius: Fixed) -> Seq<EntityId>
    decreases entries.len(),
{
    if entries.len() == 0 {
        Seq::empty()
    } else if box_within_spec(entries.last().hitbox, p, radius) {
        query_spec(entries.drop_last(), p, radius).push(entries.last().id)
    } else {
        query_spec(entries.drop_last(), p, radius)
    }
}

impl Chunks {
    /// The chunk at `pos`, if there is one.
    pub open spec fn lookup(&self, pos: ChunkPos) -> Option<Chunk> {
        match chunk_index(self.entries@, pos, 0) {
            Some(i) => Some(self.entries@[i].chunk),
            None => None,
        }
    }

    /// No chunk.
    pub fn new() -> (r: Chunks)
        ensures
            r.entries@ == Seq::<ChunkEntry>::empty(),
    {
        Chunks { entries: Vec::new() }
    }

    /// Where the chunk at `pos` is stored.
    pub fn index_of(&self, pos: ChunkPos) -> (r: Option<usize>)
        ensures
            match r {
                Some(i) => {
                    &&& chunk_index(self.entries@, pos, 0) == Some(i as int)
                    &&& i < self.entries@.len()
                    &&& self.entries@[i as int].pos == pos
                },
                None => chunk_index(self.entries@, pos, 0) is None,
            },
    {
        let mut i: usize = 0;
        while i < self.entries.len()
            invariant
                i <= self.entries@.len(),
                chunk_index(self.entries@, pos, 0) == chunk_index(self.entries@, pos, i as int),
            decreases self.entries@.len() - i,
        {
            if self.entries[i].pos == pos {
                return Some(i);
            }
            i = i + 1;
        }
        None
    }

    /// The chunk at `pos`, if there is one.
    pub fn get(&self, pos: ChunkPos) -> (r: Option<&Chunk>)
        ensures
            match r {
                Some(c) => self.lookup(pos) == Some(*c),
                None => self.lookup(pos) is None,
            },
    {
        match self.index_of(pos) {
            Some(i) => Some(&self.entries[i].chunk),
            None => None,
        }
    }

    /// The chunk at `pos`, if there is one, for writing.
    pub fn get_mut(&mut self, pos: ChunkPos) -> (r: Option<&mut Chunk>)
        ensures
            match r {
                Some(c) => {
                    &&& chunk_index(old(self).entries@, pos, 0) is Some
                    &&& *c == old(self).entries@[chunk_index(old(self).entries@, pos, 0)->0].chunk
                    &&& final(self).entries@ == old(self).entries@.update(
                        chunk_index(old(self).entries@, pos, 0)->0,
                        ChunkEntry { pos, chunk: *final(c) },
                    )
                },
                None => old(self).lookup(pos) is None && final(self).entries@ == old(self).entries@,
            },
    {
        match self.index_of(pos) {
            Some(i) => Some(&mut self.entries[i].chunk),
            None => None,
        }
    }

    /// Puts `chunk` at `pos`, in place of the chunk that was there, if any.
    pub fn insert(&mut self, pos: ChunkPos, chunk: Chunk)
        ensures
            final(self).lookup(pos) == Some(chunk),
            forall|q: ChunkPos| q != pos ==> final(self).lookup(q) == old(self).lookup(q),
    {
        match self.index_of(pos) {
            Some(i) => {
                self.entries[i] = ChunkEntry { pos, chunk };
                proof {
                    lemma_same_positions(old(self).entries@, self.entries@, pos, 0);
                    assert forall|q: ChunkPos| q != pos implies self.lookup(q) == old(self).lookup(
                        q,
                    ) by {
                        lemma_same_positions(old(self).entries@, self.entries@, q, 0);
                        lemma_index_found(old(self).entries@, q, 0);
                    }
                }
            },
            None => {
                self.entries.push(ChunkEntry { pos, chunk });
                proof {
                    lemma_index_after_push(old(self).entries@, self.entries@, pos, pos, 0);
                    assert forall|q: ChunkPos| q != pos implies self.lookup(q) == old(self).lookup(
                        q,
                    ) by {
                        lemma_index_after_push(old(self).entries@, self.entries@, pos, q, 0);
                        lemma_index_found(old(self).entries@, q, 0);
                    }
                }
            },
        }
    }
}

/// Where a position is found, it stands.
pub proof fn lemma_index_found(a: Seq<ChunkEntry>, q: ChunkPos, from: int)
    requires
        0 <= from,
    ensures
        match chunk_index(a, q, from) {
            Some(i) => from <= i < a.len() && a[i].pos == q,
            None => forall|i: int| from <= i < a.len() ==> (#[trigger] a[i]).pos != q,
        },
    decreases a.len() - from,
{
    if from < a.len() && a[from].pos != q {
        lemma_index_found(a, q, from + 1);
    }
}

/// Where two lists hold the same positions, a position is found at the same
/// index in both.
proof fn lemma_same_positions(a: Seq<ChunkEntry>, b: Seq<ChunkEntry>, q: ChunkPos, from: int)
    requires
        a.len() == b.len(),
        forall|i: int| 0 <= i < a.len() ==> (#[trigger] a[i]).pos == b[i].pos,
        0 <= from,
    ensures
        chunk_index(a, q, from) == chunk_index(b, q, from),
    decreases a.len() - from,
{
    if from < a.len() && a[from].pos != q {
        lemma_same_positions(a, b, q, from + 1);
    }
}

/// After a position that the list lacked was pushed, it is found at the end,
/// and every other position where it was.
proof fn lemma_index_after_push(
    a: Seq<ChunkEntry>,
    b: Seq<ChunkEntry>,
    pos: ChunkPos,
    q: ChunkPos,
    from: int,
)
    requires
        b.len() == a.len() + 1,
        forall|i: int| 0 <= i < a.len() ==> (#[trigger] b[i]) == a[i],
        b[a.len() as int].pos == pos,
        chunk_index(a, pos, 0) is None,
        0 <= from <= a.len(),
    ensures
        chunk_index(a, pos, from) is None,
        chunk_index(b, q, from) == (if q == pos {
            Some(a.len() as int)
        } else {
            chunk_index(a, q, from)
        }),
    decreases a.len() - from,
{
    lemma_none_from(a, pos, 0, from);
    if from < a.len() {
        lemma_index_after_push(a, b, pos, q, from + 1);
    }
}

/// A position that is not found from `lo` on is not found from `hi` on.
proof fn lemma_none_from(a: Seq<ChunkEntry>, pos: ChunkPos, lo: int, hi: int)
    requires
        0 <= lo <= hi <= a.len(),
        chunk_index(a, pos, lo) is None,
    ensures
        chunk_index(a, pos, hi) is None,
    decreases hi - lo,
{
    if lo < hi {
        lemma_none_from(a, pos, lo + 1, hi);
    }
}

impl SpatialIndex {
    /// An index of nothing.
    pub fn new() -> (r: SpatialIndex)
        ensures
            r.entries@ == Seq::<IndexEntry>::empty(),
    {
        SpatialIndex { entries: Vec::new() }
    }

    /// The entities whose box comes within `radius` of `p`.
    pub fn query(&self, p: Vec3, radius: Fixed) -> (r: Vec<EntityId>)
        ensures
            r@ == query_spec(self.entries@, p, radius),
    {
        let mut out: Vec<EntityId> = Vec::new();
        let mut i: usize = 0;
        while i < self.entries.len()
            invariant
                i <= self.entries@.len(),
                out@ == query_spec(self.entries@.subrange(0, i as int), p, radius),
            decreases self.entries@.len() - i,
        {
            let e: IndexEntry = self.entries[i];
            proof {
                let next = self.entries@.subrange(0, i + 1);
                assert(next.drop_last() =~= self.entries@.subrange(0, i as int));
            }
            if e.hitbox.within(p, radius) {
                out.push(e.id);
            }
            i = i + 1;
        }
        assert(self.entries@.subrange(0, i as int) =~= self.entries@);
        out
    }

    /// Rebuilds the index from the entities of `entities` that are in `world`.
    pub fn update(&mut self, entities: &Entities, world: WorldId)
        requires
            entities.wf(),
        ensures
            forall|i: int|
                0 <= i < final(self).entries@.len() ==> {
                    let e = #[trigger] final(self).entries@[i];
                    &&& entities@.contains_key(e.id)
                    &&& entities@[e.id].world == world
                    &&& e.hitbox == entities@[e.id].hitbox_spec()
                },
            forall|id: EntityId|
                entities@.contains_key(id) && entities@[id].world == world ==> exists|i: int|
                    0 <= i < final(self).entries@.len() && (#[trigger] final(self).entries@[i]).id
                        == id,
            forall|a: int, b: int|
                0 <= a < b < final(self).entries@.len() ==> final(self).entries@[a].id.0.index
                    < final(self).entries@[b].id.0.index,
    {
        self.entries.clear();
        let ids: Vec<EntityId> = entities.ids();
        let mut k: usize = 0;
        while k < ids.len()
            invariant
                entities.wf(),
                k <= ids@.len(),
                forall|id: EntityId| ids@.contains(id) <==> entities@.contains_key(id),
                forall|i: int|
                    0 <= i < self.entries@.len() ==> {
                        let e = #[trigger] self.entries@[i];
                        &&& entities@.contains_key(e.id)
                        &&& entities@[e.id].world == world
                        &&& e.hitbox == entities@[e.id].hitbox_spec()
                    },
                forall|j: int|
                    0 <= j < k && entities@[#[trigger] ids@[j]].world == world ==> exists|i: int|
                        0 <= i < self.entries@.len() && (#[trigger] self.entries@[i]).id == ids@[j],
                forall|a: int, b: int| 0 <= a < b < ids@.len() ==> ids@[a].0.index < ids@[b].0.index,
                forall|a: int, b: int|
                    0 <= a < b < self.entries@.len() ==> self.entries@[a].id.0.index
                        < self.entries@[b].id.0.index,
                forall|i: int|
                    0 <= i < self.entries@.len() ==> exists|j: int|
                        0 <= j < k && ids@[j] == (#[trigger] self.entries@[i]).id,
            decreases ids@.len() - k,
        {
            let id: EntityId = ids[k];
            assert(ids@.contains(id));
            let ghost before = self.entries@;
            match entities.get(id) {
                Some(e) => {
                    if e.world == world {
                        self.entries.push(IndexEntry { id, hitbox: e.hitbox() });
                        assert(self.entries@[before.len() as int].id == id);
                    }
                },
                None => {},
            }
            proof {
                assert forall|j: int|
                    0 <= j < k + 1 && entities@[#[trigger] ids@[j]].world == world implies exists|
                    i: int,
                |
                    0 <= i < self.entries@.len() && (#[trigger] self.entries@[i]).id == ids@[j] by {
                    if j < k {
                        let i = choose|i: int|
                            0 <= i < before.len() && (#[trigger] before[i]).id == ids@[j];
                        assert(self.entries@[i].id == ids@[j]);
                    }
                }
            }
            k = k + 1;
        }
        proof {
            assert forall|id: EntityId|
                entities@.contains_key(id) && entities@[id].world == world implies exists|i: int|
                0 <= i < self.entries@.len() && (#[trigger] self.entries@[i]).id == id by {
                assert(ids@.contains(id));
                let j = choose|j: int| 0 <= j < ids@.len() && ids@[j] == id;
                assert(entities@[ids@[j]].world == world);
            }
        }
    }
}

/// Whether `after` is `before` at the end of a tick: the same chunks with
/// no write recorded, the same roster with nothing new, modified or removed.
pub open spec fn world_swept(before: World, after: World) -> bool {
    &&& after.meta.dimension == before.meta.dimension
    &&& after.meta.is_flat == before.meta.is_flat
    &&& after.spatial_index == before.spatial_index
    &&& after.chunks.entries@.len() == before.chunks.entries@.len()
    &&& forall|i: int|
        0 <= i < before.chunks.entries@.len() ==> {
            let a = #[trigger] after.chunks.entries@[i];
            let b = before.chunks.entries@[i];
            &&& a.pos == b.pos
            &&& a.chunk.created_tick == b.chunk.created_tick
            &&& a.chunk.blocks@ == b.chunk.blocks@
            &&& a.chunk.modified@.len() == 0
        }
    &&& after.meta.player_list.removed@.len() == 0
    &&& after.meta.player_list.entries@.len() == before.meta.player_list.entries@.len()
    &&& forall|i: int|
        0 <= i < before.meta.player_list.entries@.len() ==> (
        #[trigger] after.meta.player_list.entries@[i]) == (crate::player_list::PlayerListEntry {
            created_this_tick: false,
            modified_game_mode: false,
            modified_ping: false,
            modified_display_name: false,
            ..before.meta.player_list.entries@[i]
        })
}

impl World {
    /// The end of a tick: the writes to the chunks are forgotten, and so is
    /// what changed in the roster.
    pub fn clear_modifications(&mut self)
        ensures
            world_swept(*old(self), *final(self)),
    {
        let mut i: usize = 0;
        while i < self.chunks.entries.len()
            invariant
                i <= self.chunks.entries@.len(),
                self.meta == old(self).meta,
                self.spatial_index == old(self).spatial_index,
                self.chunks.entries@.len() == old(self).chunks.entries@.len(),
                forall|j: int|
                    0 <= j < i ==> {
                        let a = #[trigger] self.chunks.entries@[j];
                        let b = old(self).chunks.entries@[j];
                        &&& a.pos == b.pos
                        &&& a.chunk.created_tick == b.chunk.created_tick
                        &&& a.chunk.blocks@ == b.chunk.blocks@
                        &&& a.chunk.modified@.len() == 0
                    },
                forall|j: int|
                    i <= j < self.chunks.entries@.len() ==> (#[trigger] self.chunks.entries@[j])
                        == old(self).chunks.entries@[j],
            decreases self.chunks.entries@.len() - i,
        {
            let entry: &mut ChunkEntry = &mut self.chunks.entries[i];
            entry.chunk.clear_modifications();
            i = i + 1;
        }
        self.meta.player_list.clear_modifications();
    }

    /// An empty world of dimension `dimension`.
    pub fn new(dimension: DimensionId) -> (r: World)
        ensures
            r.meta.dimension == dimension,
            !r.meta.is_flat,
            r.chunks.entries@ == Seq::<ChunkEntry>::empty(),
            r.spatial_index.entries@ == Seq::<IndexEntry>::empty(),
            r.meta.player_list.entries@.len() == 0,
            r.meta.player_list.removed@.len() == 0,
    {
        World {
            chunks: Chunks::new(),
            spatial_index: SpatialIndex::new(),
            meta: WorldMeta { dimension, is_flat: false, player_list: PlayerList::new() },
        }
    }
}

impl Worlds {
    /// The representation invariant.
    pub closed spec fn wf(&self) -> bool {
        self.sm.wf()
    }

    /// The worlds by their identifiers.
    pub closed spec fn view(&self) -> Map<WorldId, World> {
        Map::new(|id: WorldId| self.sm@.contains_key(id.0), |id: WorldId| self.sm@[id.0])
    }

    /// Whether the container takes another world.
    pub closed spec fn has_room(&self) -> bool {
        self.sm.has_room()
    }

    /// No world.
    pub fn new() -> (r: Worlds)
        ensures
            r.wf(),
            r.has_room(),
            r@ == Map::<WorldId, World>::empty(),
    {
        let r = Worlds { sm: SlotMap::new() };
        assert(r@ =~= Map::<WorldId, World>::empty());
        r
    }

    /// Adds `world`; hands it back where no identifier is left.
    pub fn insert(&mut self, world: World) -> (r: Result<WorldId, World>)
        requires
            old(self).wf(),
        ensures
            final(self).wf(),
            r is Ok <==> old(self).has_room(),
            match r {
                Ok(id) => !old(self)@.contains_key(id) && final(self)@ == old(self)@.insert(
                    id,
                    world,
                ),
                Err(w) => w == world && final(self)@ == old(self)@,
            },
    {
        match self.sm.insert(world) {
            Ok(k) => {
                assert(self@ =~= old(self)@.insert(WorldId(k), world));
                Ok(WorldId(k))
            },
            Err(w) => {
                assert(self@ =~= old(self)@);
                Err(w)
            },
        }
    }

    /// Removes the world `id`; `false`, and nothing changed, if there is none.
    pub fn delete(&mut self, id: WorldId) -> (r: bool)
        requires
            old(self).wf(),
        ensures
            final(self).wf(),
            r == old(self)@.contains_key(id),
            final(self)@ == old(self)@.remove(id),
    {
        let r = self.sm.remove(id.0).is_some();
        assert(self@ =~= old(self)@.remove(id));
        r
    }

    /// The number of worlds.
    pub fn count(&self) -> (n: usize)
        requires
            self.wf(),
        ensures
            n == self@.dom().len(),
    {
        proof {
            self.lemma_dom();
        }
        self.sm.len()
    }

    /// The identifiers are as many as the keys behind them.
    proof fn lemma_dom(&self)
        requires
            self.wf(),
        ensures
            self@.dom().finite(),
            self@.dom().len() == self.sm@.dom().len(),
    {
        self.sm.lemma_finite();
        let keys = self.sm@.dom();
        let ids = keys.map(|k: Key| WorldId(k));
        assert(ids =~= self@.dom()) by {
            assert forall|id: WorldId| ids.contains(id) <==> self@.dom().contains(id) by {
                if self@.dom().contains(id) {
                    assert(keys.contains(id.0));
                    assert(WorldId(id.0) == id);
                }
            }
        }
        vstd::set_lib::lemma_map_size(keys, ids, |k: Key| WorldId(k));
    }

    /// The world `id`, if there is one.
    pub fn get(&self, id: WorldId) -> (r: Option<&World>)
        requires
            self.wf(),
        ensures
            match r {
                Some(w) => self@.contains_key(id) && *w == self@[id],
                None => !self@.contains_key(id),
            },
    {
        self.sm.get(id.0)
    }

    /// The world `id`, if there is one, for writing.
    pub fn get_mut(&mut self, id: WorldId) -> (r: Option<&mut World>)
        requires
            old(self).wf(),
        ensures
            final(self).wf(),
            match r {
                Some(w) => {
                    &&& old(self)@.contains_key(id)
                    &&& *w == old(self)@[id]
                    &&& final(self)@ == old(self)@.insert(id, *final(w))
                },
                None => !old(self)@.contains_key(id) && final(self)@ == old(self)@,
            },
    {
        proof {
            assert forall|m: Worlds, w: World|
                #![trigger m@, old(self).sm@.insert(id.0, w)]
                m.sm@ == old(self).sm@.insert(id.0, w) implies m@ == old(self)@.insert(id, w) by {
                assert(m@ =~= old(self)@.insert(id, w));
            }
            assert forall|m: Worlds| m.sm@ == old(self).sm@ implies #[trigger] m@ == old(self)@ by {
                assert(m@ =~= old(self)@);
            }
        }
        self.sm.get_mut(id.0)
    }

    /// The identifiers of the worlds, by ascending slot.
    pub fn ids(&self) -> (r: Vec<WorldId>)
        requires
            self.wf(),
        ensures
            r@.no_duplicates(),
            forall|id: WorldId| r@.contains(id) <==> self@.contains_key(id),
            forall|a: int, b: int| 0 <= a < b < r@.len() ==> r@[a].0.index < r@[b].0.index,
    {
        let keys: Vec<Key> = self.sm.keys();
        let mut out: Vec<WorldId> = Vec::new();
        let mut i: usize = 0;
        while i < keys.len()
            invariant
                i <= keys@.len(),
                out@ == Seq::new(i as nat, |j: int| WorldId(keys@[j])),
            decreases keys@.len() - i,
        {
            out.push(WorldId(keys[i]));
            i = i + 1;
        }
        proof {
            assert forall|id: WorldId| out@.contains(id) <==> self@.contains_key(id) by {
                if out@.contains(id) {
                    let j = choose|j: int| 0 <= j < out@.len() && out@[j] == id;
                    assert(keys@.contains(keys@[j]));
                }
                if self@.contains_key(id) {
                    assert(keys@.contains(id.0));
                    let j = choose|j: int| 0 <= j < keys@.len() && keys@[j] == id.0;
                    assert(out@[j] == id);
                }
            }
        }
        out
    }

    /// Rebuilds the index of every world from `entities`: afterwards the
    /// index of a world holds the entities that are in it, each with the box
    /// it fills, and nothing else of the world has changed.
    pub fn update_spatial_indexes(&mut self, entities: &Entities)
        requires
            old(self).wf(),
            entities.wf(),
        ensures
            final(self).wf(),
            final(self)@.dom() == old(self)@.dom(),
            forall|id: WorldId| #[trigger]
                final(self)@.contains_key(id) ==> indexed(
                    old(self)@[id],
                    final(self)@[id],
                    entities,
                    id,
                ),
    {
        let ids: Vec<WorldId> = self.ids();
        let mut i: usize = 0;
        while i < ids.len()
            invariant
                self.wf(),
                entities.wf(),
                i <= ids@.len(),
                ids@.no_duplicates(),
                self@.dom() == old(self)@.dom(),
                forall|id: WorldId| ids@.contains(id) <==> self@.contains_key(id),
                forall|j: int|
                    0 <= j < i ==> indexed(
                        old(self)@[#[trigger] ids@[j]],
                        self@[ids@[j]],
                        entities,
                        ids@[j],
                    ),
                forall|j: int|
                    i <= j < ids@.len() ==> self@[#[trigger] ids@[j]] == old(self)@[ids@[j]],
            decreases ids@.len() - i,
        {
            let id: WorldId = ids[i];
            let ghost before = self@;
            assert(ids@.contains(id));
            match self.get_mut(id) {
                Some(w) => {
                    w.spatial_index.update(entities, id);
                },
                None => {},
            }
            proof {
                assert(self@.dom() =~= before.dom());
                assert forall|j: int| 0 <= j < i + 1 implies indexed(
                    old(self)@[#[trigger] ids@[j]],
                    self@[ids@[j]],
                    entities,
                    ids@[j],
                ) by {
                    if j < i {
                        assert(ids@[j] != id);
                    }
                }
                assert forall|j: int| i + 1 <= j < ids@.len() implies self@[#[trigger] ids@[j]]
                    == old(self)@[ids@[j]] by {
                    assert(ids@[j] != id);
                }
            }
            i = i + 1;
        }
        proof {
            assert forall|id: WorldId| #[trigger] self@.contains_key(id) implies indexed(
                old(self)@[id],
                self@[id],
                entities,
                id,
            ) by {
                assert(ids@.contains(id));
                let j = choose|j: int| 0 <= j < ids@.len() && ids@[j] == id;
                assert(indexed(old(self)@[ids@[j]], self@[ids@[j]], entities, ids@[j]));
            }
        }
    }

    /// The end of a tick for every world, as [`World::clear_modifications`]
    /// has it.
    pub fn clear_modifications(&mut self)
        requires
            old(self).wf(),
        ensures
            final(self).wf(),
            final(self)@.dom() == old(self)@.dom(),
            forall|id: WorldId| #[trigger]
                final(self)@.contains_key(id) ==> world_swept(old(self)@[id], final(self)@[id]),
    {
        let ids: Vec<WorldId> = self.ids();
        let mut i: usize = 0;
        while i < ids.len()
            invariant
                self.wf(),
                i <= ids@.len(),
                ids@.no_duplicates(),
                self@.dom() == old(self)@.dom(),
                forall|id: WorldId| ids@.contains(id) <==> self@.contains_key(id),
                forall|j: int|
                    0 <= j < i ==> world_swept(old(self)@[#[trigger] ids@[j]], self@[ids@[j]]),
                forall|j: int|
                    i <= j < ids@.len() ==> self@[#[trigger] ids@[j]] == old(self)@[ids@[j]],
            decreases ids@.len() - i,
        {
            let id: WorldId = ids[i];
            let ghost before = self@;
            assert(ids@.contains(id));
            match self.get_mut(id) {
                Some(w) => {
                    w.clear_modifications();
                },
                None => {},
            }
            proof {
                assert(self@.dom() =~= before.dom());
                assert forall|j: int| 0 <= j < i + 1 implies world_swept(
                    old(self)@[#[trigger] ids@[j]],
                    self@[ids@[j]],
                ) by {
                    if j < i {
                        assert(ids@[j] != id);
                    }
                }
                assert forall|j: int| i + 1 <= j < ids@.len() implies self@[#[trigger] ids@[j]]
                    == old(self)@[ids@[j]] by {
                    assert(ids@[j] != id);
                }
            }
            i = i + 1;
        }
        proof {
            assert forall|id: WorldId| #[trigger] self@.contains_key(id) implies world_swept(
                old(self)@[id],
                self@[id],
            ) by {
                assert(ids@.contains(id));
                let j = choose|j: int| 0 <= j < ids@.len() && ids@[j] == id;
                assert(world_swept(old(self)@[ids@[j]], self@[ids@[j]]));
            }
        }
    }
}

/// Whether `after` is `before` with its index rebuilt from `entities`: the
/// index holds the entities that are in the world `id`, each with the box it
/// fills, by ascending slot.
pub open spec fn indexed(before: World, after: World, entities: &Entities, id: WorldId) -> bool {
    &&& after.chunks == before.chunks
    &&& after.meta == before.meta
    &&& forall|i: int|
        0 <= i < after.spatial_index.entries@.len() ==> {
            let e = #[trigger] after.spatial_index.entries@[i];
            &&& entities@.contains_key(e.id)
            &&& entities@[e.id].world == id
            &&& e.hitbox == entities@[e.id].hitbox_spec()
        }
    &&& forall|e: EntityId|
        entities@.contains_key(e) && entities@[e].world == id ==> exists|i: int|
            0 <= i < after.spatial_index.entries@.len() && (
            #[trigger] after.spatial_index.entries@[i]).id == e
    &&& forall|a: int, b: int|
        0 <= a < b < after.spatial_index.entries@.len() ==> after.spatial_index.entries@[a].id.0.index
            < after.spatial_index.entries@[b].id.0.index
}

} // verus!
