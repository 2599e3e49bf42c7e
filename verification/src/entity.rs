//! Entities: the actors of a world, and the packets that show them to a
//! client.

use vstd::prelude::*;
use crate::channel::random_i64;
use crate::fixed::{byte_angle, byte_angle_spec, sat_i64, saturate, Fixed};
use crate::geometry::{Aabb, Vec3};
use crate::outbox::view_of;
use crate::s2c::{S2cPlayPacket, S2cView};
use crate::seqs::copy_vec;
use crate::slotmap::{Key, SlotMap};
use crate::wire::{lemma_bits_round_trip, signed_bits, to_signed, to_unsigned};
use crate::world::WorldId;

verus! {

/// The largest event code that is sent as an entity event; the codes above
/// it are animations.
pub const ENTITY_EVENT_MAX_BOUND: u8 = 62;

/// The byte that ends a list of metadata entries.
pub const METADATA_END: u8 = 0xff;

/// The stable identifier of an entity. The default identifier is never valid.
#[derive(Clone, Copy, PartialEq, Eq, PartialOrd, Ord, Hash, Default, Debug, Structural)]
pub struct EntityId(pub Key);

/// What an entity is.
#[derive(Clone, Copy, PartialEq, Eq, Debug, Structural)]
pub enum EntityKind {
    /// An entity that no client is ever shown.
    Marker,
    Player,
    ExperienceOrb,
    Item,
    FallingBlock,
    ArmorStand,
    Zombie,
}

/// The state of an entity that clients are told of: the metadata entries, in
/// their wire form, and the event codes raised this tick.
#[derive(Debug)]
pub struct TrackedData {
    /// Every entry that differs from the kind's default.
    pub initial: Vec<u8>,
    /// The entries written this tick.
    pub updated: Vec<u8>,
    /// The events raised this tick.
    pub event_codes: Vec<u8>,
}

/// The data of a client's own player.
pub type Player = TrackedData;

/// A server-side actor.
#[derive(Debug)]
pub struct Entity {
    pub kind: EntityKind,
    pub uuid: u128,
    pub world: WorldId,
    pub position: Vec3,
    /// The position at the end of the last tick.
    pub old_position: Vec3,
    pub yaw: Fixed,
    pub pitch: Fixed,
    pub head_yaw: Fixed,
    /// In metres per second.
    pub velocity: Vec3,
    pub on_ground: bool,
    pub yaw_or_pitch_modified: bool,
    pub head_yaw_modified: bool,
    pub velocity_modified: bool,
    pub data: TrackedData,
}

/// The entities of a server.
pub struct Entities {
    sm: SlotMap<Entity>,
}

impl EntityId {
    /// The identifier an entity has on the wire: its slot plus one, so that
    /// 0 is left to mean the receiving client itself.
    pub open spec fn network_id(self) -> i32 {
        signed_bits(((self.0.index as int + 1) % 0x1_0000_0000) as u32)
    }

    /// The identifier an entity has on the wire.
    pub fn to_network_id(self) -> (r: i32)
        ensures
            r == self.network_id(),
    {
        to_signed(self.0.index.wrapping_add(1))
    }
}

/// The metadata packet for the entries `bytes`, if there are any: the
/// entries and the byte that ends them.
pub open spec fn metadata_packet_spec(entity_id: i32, bytes: Seq<u8>) -> Option<S2cView> {
    if bytes.len() == 0 {
        None
    } else {
        Some(S2cView::SetEntityMetadata { entity_id, metadata: bytes.push(METADATA_END) })
    }
}

/// The packet for one event code: an entity event up to
/// [`ENTITY_EVENT_MAX_BOUND`], an animation above it.
pub open spec fn event_packet_spec(entity_id: i32, code: u8) -> S2cPlayPacket {
    if code <= ENTITY_EVENT_MAX_BOUND {
        S2cPlayPacket::EntityEvent { entity_id, entity_status: code }
    } else {
        S2cPlayPacket::Animate {
            entity_id,
            animation: (code - ENTITY_EVENT_MAX_BOUND - 1) as u8,
        }
    }
}

/// The metadata packet for the entries `bytes`, if there are any.
pub fn metadata_packet(entity_id: i32, bytes: &Vec<u8>) -> (r: Option<S2cPlayPacket>)
    ensures
        view_of(r) == metadata_packet_spec(entity_id, bytes@),
{
    if bytes.len() == 0 {
        None
    } else {
        let mut metadata: Vec<u8> = copy_vec(bytes);
        metadata.push(METADATA_END);
        Some(S2cPlayPacket::SetEntityMetadata { entity_id, metadata })
    }
}

/// The packet for one event code.
pub fn event_packet(entity_id: i32, code: u8) -> (r: S2cPlayPacket)
    ensures
        r == event_packet_spec(entity_id, code),
{
    if code <= ENTITY_EVENT_MAX_BOUND {
        S2cPlayPacket::EntityEvent { entity_id, entity_status: code }
    } else {
        S2cPlayPacket::Animate { entity_id, animation: code - ENTITY_EVENT_MAX_BOUND - 1 }
    }
}

impl EntityKind {
    /// The width of the kind's hitbox.
    pub open spec fn width(self) -> Fixed {
        match self {
            EntityKind::Marker => 0,
            EntityKind::Player => 2458,
            EntityKind::ExperienceOrb => 2048,
            EntityKind::Item => 1024,
            EntityKind::FallingBlock => 4014,
            EntityKind::ArmorStand => 2048,
            EntityKind::Zombie => 2458,
        }
    }

    /// The height of the kind's hitbox.
    pub open spec fn height(self) -> Fixed {
        match self {
            EntityKind::Marker => 0,
            EntityKind::Player => 7373,
            EntityKind::ExperienceOrb => 2048,
            EntityKind::Item => 1024,
            EntityKind::FallingBlock => 4014,
            EntityKind::ArmorStand => 8090,
            EntityKind::Zombie => 7987,
        }
    }

    /// The width and the height of the kind's hitbox.
    pub fn dimensions(self) -> (r: (Fixed, Fixed))
        ensures
            r.0 == self.width(),
            r.1 == self.height(),
    {
        match self {
            EntityKind::Marker => (0, 0),
            EntityKind::Player => (2458, 7373),
            EntityKind::ExperienceOrb => (2048, 2048),
            EntityKind::Item => (1024, 1024),
            EntityKind::FallingBlock => (4014, 4014),
            EntityKind::ArmorStand => (2048, 8090),
            EntityKind::Zombie => (2458, 7987),
        }
    }
}

impl TrackedData {
    /// No entry and no event.
    pub fn new() -> (r: TrackedData)
        ensures
            r.initial@ == Seq::<u8>::empty(),
            r.updated@ == Seq::<u8>::empty(),
            r.event_codes@ == Seq::<u8>::empty(),
    {
        TrackedData { initial: Vec::new(), updated: Vec::new(), event_codes: Vec::new() }
    }

    /// Records the byte `byte` of an entry written this tick.
    pub fn write(&mut self, byte: u8)
        ensures
            final(self).initial@ == old(self).initial@.push(byte),
            final(self).updated@ == old(self).updated@.push(byte),
            final(self).event_codes@ == old(self).event_codes@,
    {
        self.initial.push(byte);
        self.updated.push(byte);
    }

    /// Raises the event `code`.
    pub fn trigger(&mut self, code: u8)
        ensures
            final(self).initial@ == old(self).initial@,
            final(self).updated@ == old(self).updated@,
            final(self).event_codes@ == old(self).event_codes@.push(code),
    {
        self.event_codes.push(code);
    }

    /// Forgets what was written and raised this tick.
    pub fn clear_modifications(&mut self)
        ensures
            final(self).initial@ == old(self).initial@,
            final(self).updated@ == Seq::<u8>::empty(),
            final(self).event_codes@ == Seq::<u8>::empty(),
    {
        self.updated.clear();
        self.event_codes.clear();
    }
}

/// Whether `e` is a new entity of kind `kind` with the UUID `uuid`: at the
/// origin of no world, at rest, with nothing modified, written or raised.
pub open spec fn fresh(e: Entity, kind: EntityKind, uuid: u128) -> bool {
    &&& e.kind == kind
    &&& e.uuid == uuid
    &&& e.world == WorldId(Key { index: 0, generation: 0 })
    &&& e.position == (Vec3 { x: 0, y: 0, z: 0 })
    &&& e.old_position == (Vec3 { x: 0, y: 0, z: 0 })
    &&& e.yaw == 0
    &&& e.pitch == 0
    &&& e.head_yaw == 0
    &&& e.velocity == (Vec3 { x: 0, y: 0, z: 0 })
    &&& !e.on_ground
    &&& !e.yaw_or_pitch_modified
    &&& !e.head_yaw_modified
    &&& !e.velocity_modified
    &&& e.data.initial@ == Seq::<u8>::empty()
    &&& e.data.updated@ == Seq::<u8>::empty()
    &&& e.data.event_codes@ == Seq::<u8>::empty()
}

impl Entity {
    /// An entity of kind `kind` at the origin of no world.
    pub fn new(kind: EntityKind, uuid: u128) -> (r: Entity)
        ensures
            fresh(r, kind, uuid),
    {
        Entity {
            kind,
            uuid,
            world: WorldId(Key::null()),
            position: Vec3::zero(),
            old_position: Vec3::zero(),
            yaw: 0,
            pitch: 0,
            head_yaw: 0,
            velocity: Vec3::zero(),
            on_ground: false,
            yaw_or_pitch_modified: false,
            head_yaw_modified: false,
            velocity_modified: false,
            data: TrackedData::new(),
        }
    }

    /// The box the entity fills: its kind's width around its position, its
    /// kind's height above it.
    pub open spec fn hitbox_spec(&self) -> Aabb {
        let half = self.kind.width() / 2;
        Aabb {
            min: Vec3 {
                x: sat_i64(self.position.x - half) as i64,
                y: self.position.y,
                z: sat_i64(self.position.z - half) as i64,
            },
            max: Vec3 {
                x: sat_i64(self.position.x + half) as i64,
                y: sat_i64(self.position.y + self.kind.height()) as i64,
                z: sat_i64(self.position.z + half) as i64,
            },
        }
    }

    /// The box the entity fills.
    pub fn hitbox(&self) -> (r: Aabb)
        ensures
            r == self.hitbox_spec(),
    {
        let (width, height) = self.kind.dimensions();
        let half: i128 = (width / 2) as i128;
        Aabb {
            min: Vec3 {
                x: saturate(self.position.x as i128 - half),
                y: self.position.y,
                z: saturate(self.position.z as i128 - half),
            },
            max: Vec3 {
                x: saturate(self.position.x as i128 + half),
                y: saturate(self.position.y as i128 + height as i128),
                z: saturate(self.position.z as i128 + half),
            },
        }
    }

    /// Sets yaw and pitch, and marks them modified where they changed.
    pub fn set_rotation(&mut self, yaw: Fixed, pitch: Fixed)
        ensures
            *final(self) == (Entity {
                yaw,
                pitch,
                yaw_or_pitch_modified: old(self).yaw_or_pitch_modified || yaw != old(self).yaw
                    || pitch != old(self).pitch,
                ..*old(self)
            }),
    {
        if yaw != self.yaw || pitch != self.pitch {
            self.yaw_or_pitch_modified = true;
        }
        self.yaw = yaw;
        self.pitch = pitch;
    }

    /// Sets the head's yaw, and marks it modified where it changed.
    pub fn set_head_yaw(&mut self, head_yaw: Fixed)
        ensures
            *final(self) == (Entity {
                head_yaw,
                head_yaw_modified: old(self).head_yaw_modified || head_yaw != old(self).head_yaw,
                ..*old(self)
            }),
    {
        if head_yaw != self.head_yaw {
            self.head_yaw_modified = true;
        }
        self.head_yaw = head_yaw;
    }

    /// Sets the velocity, and marks it modified where it changed.
    pub fn set_velocity(&mut self, velocity: Vec3)
        ensures
            *final(self) == (Entity {
                velocity,
                velocity_modified: old(self).velocity_modified || velocity != old(self).velocity,
                ..*old(self)
            }),
    {
        if velocity != self.velocity {
            self.velocity_modified = true;
        }
        self.velocity = velocity;
    }

    /// The packet that shows the entity to a client that has not seen it;
    /// none for a marker.
    pub open spec fn spawn_packet_spec(&self, id: EntityId) -> Option<S2cPlayPacket> {
        match self.kind {
            EntityKind::Marker => None,
            EntityKind::ExperienceOrb => Some(
                S2cPlayPacket::AddExperienceOrb {
                    entity_id: id.network_id(),
                    position: self.position,
                    count: 0,
                },
            ),
            EntityKind::Player => Some(
                S2cPlayPacket::AddPlayer {
                    entity_id: id.network_id(),
                    player_uuid: self.uuid,
                    position: self.position,
                    yaw: byte_angle_spec(self.yaw) as u8,
                    pitch: byte_angle_spec(self.pitch) as u8,
                },
            ),
            _ => Some(
                S2cPlayPacket::AddEntity {
                    entity_id: id.network_id(),
                    uuid: self.uuid,
                    kind: self.kind,
                    position: self.position,
                    pitch: byte_angle_spec(self.pitch) as u8,
                    yaw: byte_angle_spec(self.yaw) as u8,
                    head_yaw: byte_angle_spec(self.head_yaw) as u8,
                    velocity: self.velocity.to_packet_velocity(),
                },
            ),
        }
    }

    /// The packet that shows the entity to a client that has not seen it.
    pub fn spawn_packet(&self, id: EntityId) -> (r: Option<S2cPlayPacket>)
        ensures
            r == self.spawn_packet_spec(id),
    {
        match self.kind {
            EntityKind::Marker => None,
            EntityKind::ExperienceOrb => Some(
                S2cPlayPacket::AddExperienceOrb {
                    entity_id: id.to_network_id(),
                    position: self.position,
                    count: 0,
                },
            ),
            EntityKind::Player => Some(
                S2cPlayPacket::AddPlayer {
                    entity_id: id.to_network_id(),
                    player_uuid: self.uuid,
                    position: self.position,
                    yaw: byte_angle(self.yaw),
                    pitch: byte_angle(self.pitch),
                },
            ),
            _ => Some(
                S2cPlayPacket::AddEntity {
                    entity_id: id.to_network_id(),
                    uuid: self.uuid,
                    kind: self.kind,
                    position: self.position,
                    pitch: byte_angle(self.pitch),
                    yaw: byte_angle(self.yaw),
                    head_yaw: byte_angle(self.head_yaw),
                    velocity: self.velocity.packet_velocity(),
                },
            ),
        }
    }

    /// The end of a tick: the position becomes the old position, and what
    /// was modified or raised is forgotten.
    pub fn clear_modifications(&mut self)
        ensures
            swept(*old(self), *final(self)),
    {
        self.old_position = self.position;
        self.yaw_or_pitch_modified = false;
        self.head_yaw_modified = false;
        self.velocity_modified = false;
        self.data.clear_modifications();
    }
}

impl Entities {
    /// The representation invariant.
    pub closed spec fn wf(&self) -> bool {
        self.sm.wf()
    }

    /// The entities by their identifiers.
    pub closed spec fn view(&self) -> Map<EntityId, Entity> {
        Map::new(|id: EntityId| self.sm@.contains_key(id.0), |id: EntityId| self.sm@[id.0])
    }

    /// Whether some entity has the UUID `uuid`.
    pub open spec fn has_uuid(&self, uuid: u128) -> bool {
        exists|id: EntityId| self@.contains_key(id) && (#[trigger] self@[id]).uuid == uuid
    }

    /// The entity that has the network identifier `network_id`, if there is
    /// one.
    pub open spec fn with_network_id(&self, network_id: i32) -> Option<EntityId> {
        if exists|id: EntityId| self@.contains_key(id) && #[trigger] id.network_id() == network_id {
            Some(
                choose|id: EntityId| self@.contains_key(id) && #[trigger] id.network_id()
                    == network_id,
            )
        } else {
            None
        }
    }

    /// Whether the container takes another entity.
    pub closed spec fn has_room(&self) -> bool {
        self.sm.has_room()
    }

    /// No entity.
    pub fn new() -> (r: Entities)
        ensures
            r.wf(),
            r.has_room(),
            r@ == Map::<EntityId, Entity>::empty(),
    {
        let r = Entities { sm: SlotMap::new() };
        assert(r@ =~= Map::<EntityId, Entity>::empty());
        r
    }

    /// The identifiers of the entities, by ascending slot.
    pub fn ids(&self) -> (r: Vec<EntityId>)
        requires
            self.wf(),
        ensures
            r@.no_duplicates(),
            forall|id: EntityId| r@.contains(id) <==> self@.contains_key(id),
            forall|a: int, b: int| 0 <= a < b < r@.len() ==> r@[a].0.index < r@[b].0.index,
    {
        let keys: Vec<Key> = self.sm.keys();
        let mut out: Vec<EntityId> = Vec::new();
        let mut i: usize = 0;
        while i < keys.len()
            invariant
                i <= keys@.len(),
                out@ == Seq::new(i as nat, |j: int| EntityId(keys@[j])),
            decreases keys@.len() - i,
        {
            out.push(EntityId(keys[i]));
            i = i + 1;
        }
        proof {
            assert forall|id: EntityId| out@.contains(id) <==> self@.contains_key(id) by {
                if out@.contains(id) {
                    let j = choose|j: int| 0 <= j < out@.len() && out@[j] == id;
                    assert(keys@.contains(keys@[j]));
                }
                if self@.contains_key(id) {
                    assert(keys@.contains(id.0));
                    let j = choose|j: int| 0 <= j < keys@.len() && keys@[j] == id.0;
                    assert(out@[j] == id);
                }
            }
        }
        out
    }

    /// The entity `id`, if there is one.
    pub fn get(&self, id: EntityId) -> (r: Option<&Entity>)
        requires
            self.wf(),
        ensures
            match r {
                Some(e) => self@.contains_key(id) && *e == self@[id],
                None => !self@.contains_key(id),
            },
    {
        self.sm.get(id.0)
    }

    /// The entity `id`, if there is one, for writing.
    pub fn get_mut(&mut self, id: EntityId) -> (r: Option<&mut Entity>)
        requires
            old(self).wf(),
        ensures
            final(self).wf(),
            match r {
                Some(e) => {
                    &&& old(self)@.contains_key(id)
                    &&& *e == old(self)@[id]
                    &&& final(self)@ == old(self)@.insert(id, *final(e))
                },
                None => !old(self)@.contains_key(id) && final(self)@ == old(self)@,
            },
    {
        proof {
            assert forall|m: Entities, e: Entity|
                #![trigger m@, old(self).sm@.insert(id.0, e)]
                m.sm@ == old(self).sm@.insert(id.0, e) implies m@ == old(self)@.insert(id, e) by {
                assert(m@ =~= old(self)@.insert(id, e));
            }
            assert forall|m: Entities| m.sm@ == old(self).sm@ implies #[trigger] m@ == old(self)@ by {
                assert(m@ =~= old(self)@);
            }
        }
        self.sm.get_mut(id.0)
    }

    /// The entity that has the network identifier `network_id`, if there is
    /// one. No entity has the network identifier 0.
    pub fn get_with_network_id(&self, network_id: i32) -> (r: Option<EntityId>)
        requires
            self.wf(),
        ensures
            r == self.with_network_id(network_id),
            match r {
                Some(id) => self@.contains_key(id) && id.network_id() == network_id,
                None => forall|id: EntityId|
                    self@.contains_key(id) ==> id.network_id() != network_id,
            },
            network_id == 0 ==> r is None,
    {
        if network_id == 0 {
            proof {
                assert forall|id: EntityId| self@.contains_key(id) implies id.network_id()
                    != 0 by {
                    self.lemma_network_ids(id);
                }
            }
            return None;
        }
        let index: u32 = to_unsigned(network_id).wrapping_sub(1);
        match self.sm.key_at(index) {
            Some(k) => {
                proof {
                    lemma_bits_round_trip(0, network_id);
                    let found = EntityId(k);
                    assert(self@.contains_key(found) && found.network_id() == network_id);
                    let other = self.with_network_id(network_id)->0;
                    self.lemma_network_ids(other);
                    self.lemma_network_ids(found);
                    lemma_bits_round_trip((other.0.index + 1) as u32, 0);
                    lemma_bits_round_trip((found.0.index + 1) as u32, 0);
                    self.sm.lemma_unique_index(other.0, found.0);
                }
                Some(EntityId(k))
            },
            None => {
                proof {
                    assert forall|id: EntityId| self@.contains_key(id) implies id.network_id()
                        != network_id by {
                        self.lemma_network_ids(id);
                        lemma_bits_round_trip((id.0.index + 1) as u32, network_id);
                        if id.network_id() == network_id {
                            assert(id.0.index == index);
                            assert(self.sm@.contains_key(
                                Key { index, generation: id.0.generation },
                            ));
                        }
                    }
                }
                None
            },
        }
    }

    /// The network identifier of a live entity is its slot plus one, and so
    /// never 0.
    proof fn lemma_network_ids(&self, id: EntityId)
        requires
            self.wf(),
            self@.contains_key(id),
        ensures
            id.0.index < u32::MAX,
            id.network_id() == signed_bits((id.0.index + 1) as u32),
            id.network_id() != 0,
    {
        self.sm.lemma_index_bound(id.0);
        lemma_bits_round_trip((id.0.index + 1) as u32, 0);
    }

    /// Two entities with one network identifier are one entity.
    pub proof fn lemma_one_entity_per_network_id(&self, a: EntityId, b: EntityId)
        requires
            self.wf(),
            self@.contains_key(a),
            self@.contains_key(b),
            a.network_id() == b.network_id(),
        ensures
            a == b,
    {
        self.lemma_network_ids(a);
        self.lemma_network_ids(b);
        lemma_bits_round_trip((a.0.index + 1) as u32, 0);
        lemma_bits_round_trip((b.0.index + 1) as u32, 0);
        self.sm.lemma_unique_index(a.0, b.0);
    }

    /// Adds an entity of kind `kind` with the UUID `uuid`, unless an entity
    /// has that UUID already or no identifier is left.
    pub fn create_with_uuid(&mut self, kind: EntityKind, uuid: u128) -> (r: Option<EntityId>)
        requires
            old(self).wf(),
        ensures
            final(self).wf(),
            r is Some <==> !old(self).has_uuid(uuid) && old(self).has_room(),
            match r {
                Some(id) => {
                    &&& !old(self)@.contains_key(id)
                    &&& final(self)@.contains_key(id)
                    &&& final(self)@.remove(id) == old(self)@
                    &&& fresh(final(self)@[id], kind, uuid)
                },
                None => final(self)@ == old(self)@,
            },
    {
        let ids: Vec<EntityId> = self.ids();
        let mut i: usize = 0;
        while i < ids.len()
            invariant
                self.wf(),
                *self == *old(self),
                i <= ids@.len(),
                forall|id: EntityId| ids@.contains(id) <==> self@.contains_key(id),
                forall|j: int| 0 <= j < i ==> self@[#[trigger] ids@[j]].uuid != uuid,
            decreases ids@.len() - i,
        {
            assert(ids@.contains(ids@[i as int]));
            match self.get(ids[i]) {
                Some(e) => {
                    if e.uuid == uuid {
                        assert(self@.contains_key(ids@[i as int]) && self@[ids@[i as int]].uuid
                            == uuid);
                        return None;
                    }
                },
                None => {},
            }
            i = i + 1;
        }
        proof {
            assert(!self.has_uuid(uuid)) by {
                if self.has_uuid(uuid) {
                    let id = choose|id: EntityId|
                        self@.contains_key(id) && (#[trigger] self@[id]).uuid == uuid;
                    assert(ids@.contains(id));
                    let j = choose|j: int| 0 <= j < ids@.len() && ids@[j] == id;
                    assert(self@[ids@[j]].uuid != uuid);
                }
            }
        }
        match self.sm.insert(Entity::new(kind, uuid)) {
            Ok(k) => {
                assert(self@.remove(EntityId(k)) =~= old(self)@);
                Some(EntityId(k))
            },
            Err(_) => {
                assert(self@ =~= old(self)@);
                None
            },
        }
    }

    /// Removes the entity `id`; `false`, and nothing changed, if there is none.
    pub fn delete(&mut self, id: EntityId) -> (r: bool)
        requires
            old(self).wf(),
        ensures
            final(self).wf(),
            r == old(self)@.contains_key(id),
            final(self)@ == old(self)@.remove(id),
    {
        let r = self.sm.remove(id.0).is_some();
        assert(self@ =~= old(self)@.remove(id));
        r
    }

    /// What [`Self::create_with_uuid`] makes of `self` and answers for the
    /// UUID `uuid`: a new entity of kind `kind` under an identifier that was
    /// not valid, if and only if no entity has the UUID and there is room;
    /// nothing otherwise.
    pub open spec fn created_with(
        &self,
        after: &Entities,
        kind: EntityKind,
        uuid: u128,
        r: Option<EntityId>,
    ) -> bool {
        &&& r is Some <==> !self.has_uuid(uuid) && self.has_room()
        &&& match r {
            Some(id) => {
                &&& !self@.contains_key(id)
                &&& after@.contains_key(id)
                &&& after@.remove(id) == self@
                &&& fresh(after@[id], kind, uuid)
            },
            None => after@ == self@,
        }
    }

    /// Adds an entity of kind `kind` under a UUID drawn at random: does what
    /// [`Self::create_with_uuid`] does for the UUID drawn. So the entity is
    /// added wherever there is room and the UUID drawn is free, as every
    /// UUID is while there is no entity; and `None` is the answer, and
    /// nothing changes, where there is no room or the UUID drawn is taken.
    pub fn create(&mut self, kind: EntityKind) -> (r: Option<EntityId>)
        requires
            old(self).wf(),
        ensures
            final(self).wf(),
            exists|uuid: u128| #[trigger] old(self).created_with(final(self), kind, uuid, r),
    {
        let high: u128 = to_unsigned_64(random_i64()) as u128;
        let low: u128 = to_unsigned_64(random_i64()) as u128;
        let uuid: u128 = high * 0x1_0000_0000_0000_0000 + low;
        let r = self.create_with_uuid(kind, uuid);
        assert(old(self).created_with(self, kind, uuid, r));
        r
    }

    /// The end of a tick for every entity, as [`Entity::clear_modifications`]
    /// has it.
    pub fn clear_modifications(&mut self)
        requires
            old(self).wf(),
        ensures
            final(self).wf(),
            final(self)@.dom() == old(self)@.dom(),
            forall|id: EntityId| #[trigger]
                final(self)@.contains_key(id) ==> swept(old(self)@[id], final(self)@[id]),
    {
        let ids: Vec<EntityId> = self.ids();
        let mut i: usize = 0;
        while i < ids.len()
            invariant
                self.wf(),
                i <= ids@.len(),
                ids@.no_duplicates(),
                self@.dom() == old(self)@.dom(),
                forall|id: EntityId| ids@.contains(id) <==> self@.contains_key(id),
                forall|j: int|
                    0 <= j < i ==> swept(old(self)@[#[trigger] ids@[j]], self@[ids@[j]]),
                forall|j: int|
                    i <= j < ids@.len() ==> self@[#[trigger] ids@[j]] == old(self)@[ids@[j]],
            decreases ids@.len() - i,
        {
            let id: EntityId = ids[i];
            let ghost before = self@;
            assert(ids@.contains(id));
            match self.get_mut(id) {
                Some(e) => {
                    e.clear_modifications();
                },
                None => {},
            }
            proof {
                assert(self@.dom() =~= before.dom());
                assert forall|j: int| 0 <= j < i + 1 implies swept(
                    old(self)@[#[trigger] ids@[j]],
                    self@[ids@[j]],
                ) by {
                    if j < i {
                        assert(ids@[j] != id);
                    }
                }
                assert forall|j: int| i + 1 <= j < ids@.len() implies self@[#[trigger] ids@[j]]
                    == old(self)@[ids@[j]] by {
                    assert(ids@[j] != id);
                }
            }
            i = i + 1;
        }
        proof {
            assert forall|id: EntityId| #[trigger] self@.contains_key(id) implies swept(
                old(self)@[id],
                self@[id],
            ) by {
                assert(ids@.contains(id));
                let j = choose|j: int| 0 <= j < ids@.len() && ids@[j] == id;
                assert(swept(old(self)@[ids@[j]], self@[ids@[j]]));
            }
        }
    }
}

/// Whether `after` is `before` at the end of a tick: where it was, with
/// that as its old position, and with nothing modified or raised.
pub open spec fn swept(before: Entity, after: Entity) -> bool {
    &&& after.kind == before.kind
    &&& after.uuid == before.uuid
    &&& after.world == before.world
    &&& after.position == before.position
    &&& after.old_position == before.position
    &&& after.yaw == before.yaw
    &&& after.pitch == before.pitch
    &&& after.head_yaw == before.head_yaw
    &&& after.velocity == before.velocity
    &&& after.on_ground == before.on_ground
    &&& !after.yaw_or_pitch_modified
    &&& !after.head_yaw_modified
    &&& !after.velocity_modified
    &&& after.data.initial@ == before.data.initial@
    &&& after.data.updated@ == Seq::<u8>::empty()
    &&& after.data.event_codes@ == Seq::<u8>::empty()
}

/// The unsigned integer with the bits of `x`.
fn to_unsigned_64(x: i64) -> (r: u64)
    ensures
        r as int == (if x >= 0 {
            x as int
        } else {
            x as int + 0x1_0000_0000_0000_0000
        }),
{
    if x >= 0 {
        x as u64
    } else {
        (x as i128 + 0x1_0000_0000_0000_0000) as u64
    }
}

} // verus!
