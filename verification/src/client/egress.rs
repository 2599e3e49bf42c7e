//! What a client is owed at the end of a tick: the packets that bring it
//! from what it knew to what is.

use vstd::prelude::*;
use crate::channel::{random_i64, receiver_is_disconnected, sender_is_disconnected};
use crate::client::laws::{lemma_retained_chunks, lemma_retained_entities};
use crate::client::sets::{ChunkSet, EntitySet};
use crate::client::{handed_first, offered, Client, ClientView};
use crate::entity::{
    event_packet, event_packet_spec, metadata_packet, metadata_packet_spec, Entities, Entity,
    EntityId, EntityKind, ENTITY_EVENT_MAX_BOUND,
};
use crate::fixed::{byte_angle, byte_angle_spec, Fixed, ONE};
use crate::flags::{ClientFlag, FlagsView};
use crate::geometry::{
    in_view_spec, view_radius, view_radius_spec, within_spec, BlockPos, ChunkPos, Vec3,
};
use crate::ident::{DimensionId, DimensionName, DimensionTypeName};
use crate::outbox::{
    lemma_extend_emit, lemma_extend_extend, lemma_extend_nothing, optional, Outbox, OutboxView,
};
use crate::registry::{dimension_count, make_registry_codec, registry_codec_spec};
use crate::s2c::{
    Attribute, DeathLocation, GameEventReason, Login, LoginView, Respawn, S2cPlayPacket, S2cView,
    Text,
};
use crate::server::SharedServer;
use crate::wire::{signed_bits, to_signed};
use crate::world::{query_spec, World, Worlds};
use crate::Ticks;

verus! {

/// How many chunks beyond its view distance a client keeps what it has, so
/// that a step over a chunk border and back costs no chunk anew.
pub const CHUNK_CACHE: u16 = 2;

/// A client and its outbox in the course of an update.
#[verifier::ext_equal]
pub struct Step {
    pub client: ClientView,
    pub out: OutboxView,
}

/// The names of the configured dimensions, and after them that of the dummy
/// dimension.
pub open spec fn dimension_names_spec(shared: &SharedServer) -> Seq<DimensionName> {
    Seq::new(
        dimension_count(shared) as nat,
        |i: int| DimensionName::Dimension(DimensionId(i as u16)),
    ).push(DimensionName::Dummy)
}

/// A death location as packets name it.
pub open spec fn death_location_spec(l: Option<(DimensionId, BlockPos)>) -> Option<DeathLocation> {
    match l {
        Some((id, position)) => Some(
            DeathLocation { dimension: DimensionName::Dimension(id), position },
        ),
        None => None,
    }
}

/// The login packet for `c` in `world`.
pub open spec fn login_spec(c: ClientView, shared: &SharedServer, world: World) -> S2cView {
    S2cView::Login(
        LoginView {
            entity_id: 0,
            is_hardcore: c.flags.hardcore,
            gamemode: c.new_game_mode,
            previous_gamemode: c.old_game_mode,
            dimension_names: dimension_names_spec(shared),
            registry_codec: registry_codec_spec(shared),
            dimension_type_name: DimensionTypeName(world.meta.dimension),
            dimension_name: DimensionName::Dimension(world.meta.dimension),
            hashed_seed: 0,
            max_players: 0,
            view_distance: c.new_max_view_distance as i32,
            simulation_distance: 16,
            reduced_debug_info: false,
            enable_respawn_screen: false,
            is_debug: false,
            is_flat: world.meta.is_flat,
            last_death_location: death_location_spec(c.death_location),
        },
    )
}

/// The respawn packet that sends `c` to the dummy dimension.
pub open spec fn dummy_respawn_spec(c: ClientView) -> S2cView {
    S2cView::Plain(
        S2cPlayPacket::Respawn(
            Respawn {
                dimension_type_name: DimensionTypeName(DimensionId(0)),
                dimension_name: DimensionName::Dummy,
                hashed_seed: 0,
                game_mode: c.new_game_mode,
                previous_game_mode: c.new_game_mode,
                is_debug: false,
                is_flat: false,
                copy_metadata: true,
                last_death_location: None,
            },
        ),
    )
}

/// The respawn packet that sends `c` to the dimension of `world`.
pub open spec fn respawn_spec(c: ClientView, world: World) -> S2cView {
    S2cView::Plain(
        S2cPlayPacket::Respawn(
            Respawn {
                dimension_type_name: DimensionTypeName(world.meta.dimension),
                dimension_name: DimensionName::Dimension(world.meta.dimension),
                hashed_seed: 0,
                game_mode: c.new_game_mode,
                previous_game_mode: c.new_game_mode,
                is_debug: false,
                is_flat: world.meta.is_flat,
                copy_metadata: true,
                last_death_location: death_location_spec(c.death_location),
            },
        ),
    )
}

/// The chunk a client stands in.
pub open spec fn center_of(c: ClientView) -> ChunkPos {
    ChunkPos::at_spec(c.new_position.x, c.new_position.z)
}

/// Whether a client that has the chunk at `pos` keeps it: the chunk is
/// still there, within the view distance and the cache beyond it, and was
/// not made anew this tick.
pub open spec fn keeps_chunk(c: ClientView, world: World, now: Ticks, pos: ChunkPos) -> bool {
    match world.chunks.lookup(pos) {
        Some(chunk) => in_view_spec(center_of(c), pos, c.view_distance() + CHUNK_CACHE)
            && chunk.created_tick != now,
        None => false,
    }
}

/// What a client is sent of a chunk it has: the writes of this tick where
/// it keeps the chunk, the word to forget it otherwise.
pub open spec fn retain_packets(
    c: ClientView,
    world: World,
    min_y: i32,
    now: Ticks,
    pos: ChunkPos,
) -> Seq<S2cView> {
    if keeps_chunk(c, world, now, pos) {
        world.chunks.lookup(pos)->0.block_change_stream(pos, min_y)
    } else {
        seq![S2cView::Plain(S2cPlayPacket::ForgetLevelChunk { chunk_x: pos.x, chunk_z: pos.z })]
    }
}

/// What a client is sent of the chunks `loaded`, in order.
pub open spec fn retain_stream(
    c: ClientView,
    world: World,
    min_y: i32,
    now: Ticks,
    loaded: Seq<ChunkPos>,
) -> Seq<S2cView>
    decreases loaded.len(),
{
    if loaded.len() == 0 {
        Seq::empty()
    } else {
        retain_stream(c, world, min_y, now, loaded.drop_last()) + retain_packets(
            c,
            world,
            min_y,
            now,
            loaded.last(),
        )
    }
}

/// Those of the chunks `loaded` that a client keeps, in order.
pub open spec fn retained_chunks(c: ClientView, world: World, now: Ticks, loaded: Seq<ChunkPos>)
    -> Seq<ChunkPos>
    decreases loaded.len(),
{
    if loaded.len() == 0 {
        Seq::empty()
    } else if keeps_chunk(c, world, now, loaded.last()) {
        retained_chunks(c, world, now, loaded.drop_last()).push(loaded.last())
    } else {
        retained_chunks(c, world, now, loaded.drop_last())
    }
}

/// The side of the square of chunks that a view distance of `d` takes in.
pub open spec fn view_side(d: u8) -> int {
    2 * d as int + 1
}

/// The `k`-th position of the square of chunks around `center`, row by row
/// from the north, west to east within a row; `None` where no chunk can
/// stand there.
pub open spec fn view_cell(center: ChunkPos, d: u8, k: int) -> Option<ChunkPos> {
    let x = center.x as int - d as int + k % view_side(d);
    let z = center.z as int - d as int + k / view_side(d);
    if i32::MIN <= x <= i32::MAX && i32::MIN <= z <= i32::MAX {
        Some(ChunkPos { x: x as i32, z: z as i32 })
    } else {
        None
    }
}

/// Whether a client that has the chunks `loaded` is sent the chunk at the
/// `k`-th position of its view: a chunk stands there and it has it not.
pub open spec fn loads_cell(c: ClientView, world: World, loaded: Seq<ChunkPos>, k: int) -> bool {
    match view_cell(center_of(c), c.view_distance(), k) {
        Some(pos) => world.chunks.lookup(pos) is Some && !loaded.contains(pos),
        None => false,
    }
}

/// The chunks a client has after it was sent what it lacked of the first
/// `n` positions of its view.
pub open spec fn loaded_after(c: ClientView, world: World, start: Seq<ChunkPos>, n: nat) -> Seq<
    ChunkPos,
>
    decreases n,
{
    if n == 0 {
        start
    } else {
        let before = loaded_after(c, world, start, (n - 1) as nat);
        if loads_cell(c, world, before, n - 1) {
            before.push(view_cell(center_of(c), c.view_distance(), n - 1)->0)
        } else {
            before
        }
    }
}

/// The packets that hand a client the chunk at `pos`: the chunk, then the
/// writes of this tick.
pub open spec fn load_packets(world: World, min_y: i32, pos: ChunkPos) -> Seq<S2cView> {
    let chunk = world.chunks.lookup(pos)->0;
    seq![chunk.chunk_data_spec(pos)] + chunk.block_change_stream(pos, min_y)
}

/// What a client is sent of what it lacked of the first `n` positions of
/// its view.
pub open spec fn load_stream(
    c: ClientView,
    world: World,
    min_y: i32,
    start: Seq<ChunkPos>,
    n: nat,
) -> Seq<S2cView>
    decreases n,
{
    if n == 0 {
        Seq::empty()
    } else {
        let before = loaded_after(c, world, start, (n - 1) as nat);
        let sent = load_stream(c, world, min_y, start, (n - 1) as nat);
        if loads_cell(c, world, before, n - 1) {
            sent + load_packets(world, min_y, view_cell(center_of(c), c.view_distance(), n - 1)->0)
        } else {
            sent
        }
    }
}

/// One acknowledgement for each of `sequences`, in order.
pub open spec fn ack_stream(sequences: Seq<i32>) -> Seq<S2cView> {
    Seq::new(
        sequences.len(),
        |i: int| S2cView::Plain(S2cPlayPacket::BlockChangeAck { sequence: sequences[i] }),
    )
}

/// One system chat packet for each of `msgs`, in order.
pub open spec fn chat_stream(msgs: Seq<Text>) -> Seq<S2cView> {
    Seq::new(
        msgs.len(),
        |i: int| S2cView::Plain(S2cPlayPacket::SystemChat { chat: msgs[i], kind: 0 }),
    )
}

/// One packet for each of the event codes `codes`, in order.
pub open spec fn event_stream(entity_id: i32, codes: Seq<u8>) -> Seq<S2cView> {
    Seq::new(codes.len(), |i: int| S2cView::Plain(event_packet_spec(entity_id, codes[i])))
}

/// One entity event for each of `codes` that is no animation, in order: a
/// client is not told of its own animations.
pub open spec fn self_event_stream(codes: Seq<u8>) -> Seq<S2cView>
    decreases codes.len(),
{
    if codes.len() == 0 {
        Seq::empty()
    } else if codes.last() <= ENTITY_EVENT_MAX_BOUND {
        self_event_stream(codes.drop_last()).push(
            S2cView::Plain(
                S2cPlayPacket::EntityEvent { entity_id: 0, entity_status: codes.last() },
            ),
        )
    } else {
        self_event_stream(codes.drop_last())
    }
}

/// How the move of `e` this tick is told: by a teleport where some axis
/// moved eight blocks or more; else by one packet for position and rotation
/// where both changed, or by one for the one that did.
pub open spec fn movement_packets(e: Entity, id: EntityId) -> Seq<S2cView> {
    let nid = id.network_id();
    let delta = e.position.minus(e.old_position);
    let far = delta.max_abs() >= crate::fixed::MAX_RELATIVE_MOVE;
    let near = e.position != e.old_position && !far;
    let yaw = byte_angle_spec(e.yaw) as u8;
    let pitch = byte_angle_spec(e.pitch) as u8;
    let relative = if near && e.yaw_or_pitch_modified {
        seq![
            S2cView::Plain(
                S2cPlayPacket::MoveEntityPositionAndRotation {
                    entity_id: nid,
                    delta: delta.to_delta(),
                    yaw,
                    pitch,
                    on_ground: e.on_ground,
                },
            ),
        ]
    } else {
        (if near {
            seq![
                S2cView::Plain(
                    S2cPlayPacket::MoveEntityPosition {
                        entity_id: nid,
                        delta: delta.to_delta(),
                        on_ground: e.on_ground,
                    },
                ),
            ]
        } else {
            Seq::empty()
        }) + (if e.yaw_or_pitch_modified {
            seq![
                S2cView::Plain(
                    S2cPlayPacket::MoveEntityRotation {
                        entity_id: nid,
                        yaw,
                        pitch,
                        on_ground: e.on_ground,
                    },
                ),
            ]
        } else {
            Seq::empty()
        })
    };
    let absolute = if far {
        seq![
            S2cView::Plain(
                S2cPlayPacket::TeleportEntity {
                    entity_id: nid,
                    position: e.position,
                    yaw,
                    pitch,
                    on_ground: e.on_ground,
                },
            ),
        ]
    } else {
        Seq::empty()
    };
    relative + absolute
}

/// What a client that sees `e` is sent of it: its new metadata, its move,
/// its velocity and the turn of its head where they changed, and its events.
pub open spec fn entity_packets(e: Entity, id: EntityId) -> Seq<S2cView> {
    let nid = id.network_id();
    let velocity = if e.velocity_modified {
        seq![
            S2cView::Plain(
                S2cPlayPacket::SetEntityMotion {
                    entity_id: nid,
                    velocity: e.velocity.to_packet_velocity(),
                },
            ),
        ]
    } else {
        Seq::empty()
    };
    let head = if e.head_yaw_modified {
        seq![
            S2cView::Plain(
                S2cPlayPacket::RotateHead {
                    entity_id: nid,
                    head_yaw: byte_angle_spec(e.head_yaw) as u8,
                },
            ),
        ]
    } else {
        Seq::empty()
    };
    optional(metadata_packet_spec(nid, e.data.updated@)) + movement_packets(e, id) + velocity
        + head + event_stream(nid, e.data.event_codes@)
}

/// Whether a client that sees the entity `id` goes on seeing it: the entity
/// is still there, and no further than the view distance.
pub open spec fn keeps_entity(c: ClientView, entities: &Entities, id: EntityId) -> bool {
    entities@.contains_key(id) && within_spec(
        c.new_position,
        entities@[id].position,
        view_radius_spec(c.view_distance()),
    )
}

/// What a client is sent of the entities `loaded` that it goes on seeing.
pub open spec fn entities_stream(c: ClientView, entities: &Entities, loaded: Seq<EntityId>) -> Seq<
    S2cView,
>
    decreases loaded.len(),
{
    if loaded.len() == 0 {
        Seq::empty()
    } else if keeps_entity(c, entities, loaded.last()) {
        entities_stream(c, entities, loaded.drop_last()) + entity_packets(
            entities@[loaded.last()],
            loaded.last(),
        )
    } else {
        entities_stream(c, entities, loaded.drop_last())
    }
}

/// Those of the entities `loaded` that a client goes on seeing, in order.
pub open spec fn retained_entities(c: ClientView, entities: &Entities, loaded: Seq<EntityId>)
    -> Seq<EntityId>
    decreases loaded.len(),
{
    if loaded.len() == 0 {
        Seq::empty()
    } else if keeps_entity(c, entities, loaded.last()) {
        retained_entities(c, entities, loaded.drop_last()).push(loaded.last())
    } else {
        retained_entities(c, entities, loaded.drop_last())
    }
}

/// Those of the entities `loaded` that a client ceases to see, in order.
pub open spec fn unloaded_entities(c: ClientView, entities: &Entities, loaded: Seq<EntityId>)
    -> Seq<EntityId>
    decreases loaded.len(),
{
    if loaded.len() == 0 {
        Seq::empty()
    } else if keeps_entity(c, entities, loaded.last()) {
        unloaded_entities(c, entities, loaded.drop_last())
    } else {
        unloaded_entities(c, entities, loaded.drop_last()).push(loaded.last())
    }
}

/// The network identifiers of `ids`, in order.
pub open spec fn network_ids(ids: Seq<EntityId>) -> Seq<i32> {
    Seq::new(ids.len(), |i: int| ids[i].network_id())
}

/// The packet that removes the entities `ids` from a client's sight; none
/// where there is nothing to remove.
pub open spec fn remove_packet(ids: Seq<EntityId>) -> Seq<S2cView> {
    if ids.len() == 0 {
        Seq::empty()
    } else {
        seq![S2cView::RemoveEntities { entities: network_ids(ids) }]
    }
}

/// Whether a client that sees the entities `loaded` comes to see the entity
/// `id` that is near it: the entity is there, is no marker, is not the
/// client's own, and is not seen yet.
pub open spec fn admits_entity(
    c: ClientView,
    entities: &Entities,
    loaded: Seq<EntityId>,
    id: EntityId,
) -> bool {
    &&& entities@.contains_key(id)
    &&& entities@[id].kind != EntityKind::Marker
    &&& entities@[id].uuid != c.uuid
    &&& !loaded.contains(id)
}

/// The entities a client sees after it came to see what it could of `near`.
pub open spec fn discovered(
    c: ClientView,
    entities: &Entities,
    start: Seq<EntityId>,
    near: Seq<EntityId>,
) -> Seq<EntityId>
    decreases near.len(),
{
    if near.len() == 0 {
        start
    } else {
        let before = discovered(c, entities, start, near.drop_last());
        if admits_entity(c, entities, before, near.last()) {
            before.push(near.last())
        } else {
            before
        }
    }
}

/// The packets that show `e` to a client that has not seen it: the spawn
/// packet, the metadata and the events of this tick.
pub open spec fn show_packets(e: Entity, id: EntityId) -> Seq<S2cView> {
    optional(
        match e.spawn_packet_spec(id) {
            Some(p) => Some(S2cView::Plain(p)),
            None => None,
        },
    ) + optional(metadata_packet_spec(id.network_id(), e.data.initial@)) + event_stream(
        id.network_id(),
        e.data.event_codes@,
    )
}

/// What a client is sent of the entities of `near` that it comes to see.
pub open spec fn discover_stream(
    c: ClientView,
    entities: &Entities,
    start: Seq<EntityId>,
    near: Seq<EntityId>,
) -> Seq<S2cView>
    decreases near.len(),
{
    if near.len() == 0 {
        Seq::empty()
    } else {
        let before = discovered(c, entities, start, near.drop_last());
        let sent = discover_stream(c, entities, start, near.drop_last());
        if admits_entity(c, entities, before, near.last()) {
            sent + show_packets(entities@[near.last()], near.last())
        } else {
            sent
        }
    }
}

/// The entities near a client: those whose box, as `world` has it indexed,
/// comes within the view distance.
pub open spec fn near_entities(c: ClientView, world: World) -> Seq<EntityId> {
    query_spec(world.spatial_index.entries@, c.new_position, view_radius_spec(c.view_distance()))
}

/// The world a client is in and the height of its lowest layer, where the
/// world exists and its dimension is configured.
pub open spec fn resolve_world(c: ClientView, shared: &SharedServer, worlds: &Worlds) -> Option<
    (World, i32),
> {
    if worlds@.contains_key(c.world) {
        match shared.dimension_spec(worlds@[c.world].meta.dimension) {
            Some(d) => Some((worlds@[c.world], d.min_y)),
            None => None,
        }
    } else {
        None
    }
}

/// Whether `after` is `before` after an update. A client that was
/// disconnected is left alone. Any other is disconnected and otherwise
/// untouched; or at the end of the tick, for some keep-alive identifier, with
/// the packets of the tick sent to it in order (see [`offered`]), and
/// disconnected at least where the outbox of the tick came back closed.
#[verifier::opaque]
pub open spec fn updated(
    before: ClientView,
    after: ClientView,
    shared: &SharedServer,
    entities: &Entities,
    worlds: &Worlds,
) -> bool {
    &&& after.connected ==> before.connected
    &&& !before.connected ==> after == before
    &&& after == before.disconnected() || exists|fresh_id: i64|
        {
            let end = #[trigger] (Step {
                client: before,
                out: OutboxView { packets: Seq::empty(), open: true },
            }).tick(shared, entities, worlds, fresh_id);
            &&& offered(end.client, after, end.out.packets)
            &&& after.connected ==> end.out.open
        }
}

/// A client that was disconnected and otherwise left alone was updated.
proof fn lemma_updated_by_disconnect(
    before: ClientView,
    shared: &SharedServer,
    entities: &Entities,
    worlds: &Worlds,
)
    ensures
        updated(before, before.disconnected(), shared, entities, worlds),
{
    reveal(updated);
}

/// A client that was brought to the end of the tick and sent the packets of
/// the tick, and disconnected at least where the outbox came back closed,
/// was updated.
proof fn lemma_updated_by_tick(
    before: ClientView,
    after: ClientView,
    shared: &SharedServer,
    entities: &Entities,
    worlds: &Worlds,
    fresh_id: i64,
)
    requires
        before.connected,
        ({
            let end = (Step {
                client: before,
                out: OutboxView { packets: Seq::empty(), open: true },
            }).tick(shared, entities, worlds, fresh_id);
            &&& offered(end.client, after, end.out.packets)
            &&& after.connected ==> end.out.open
        }),
    ensures
        updated(before, after, shared, entities, worlds),
{
    reveal(updated);
    let end = (Step {
        client: before,
        out: OutboxView { packets: Seq::empty(), open: true },
    }).tick(shared, entities, worlds, fresh_id);
    assert(offered(end.client, after, end.out.packets));
}

/// A client that was sent packets and is disconnected afterwards was sent
/// them all the same.
proof fn lemma_offered_then_disconnected(
    before: ClientView,
    after: ClientView,
    packets: Seq<S2cView>,
)
    requires
        offered(before, after, packets),
    ensures
        offered(before, after.disconnected(), packets),
{
    let k = choose|k: int| #[trigger] handed_first(before, after, packets, k);
    assert(handed_first(before, after.disconnected(), packets, k));
}

impl ClientView {
    /// The client at the end of its update: what was written and raised on
    /// its own player is forgotten, and its position is its old position.
    pub open spec fn swept(self) -> ClientView {
        ClientView {
            player_updated: Seq::empty(),
            player_events: Seq::empty(),
            old_position: self.new_position,
            ..self
        }
    }
}

impl Step {
    /// The outbox handed `ps`.
    pub open spec fn send(self, ps: Seq<S2cView>) -> Step {
        Step { client: self.client, out: self.out.extend(ps) }
    }

    /// The client set where it is anew, so that the teleport handshake is
    /// armed; the outbox is closed where the pending handshakes overflow.
    pub open spec fn rearm(self) -> Step {
        let c = self.client;
        Step {
            client: ClientView {
                connected: c.connected,
                ..c.teleported(c.new_position, c.yaw, c.pitch)
            },
            out: if c.teleport_overflows() {
                self.out.close()
            } else {
                self.out
            },
        }
    }

    /// A client's first tick: the roster, the login packet, and the
    /// handshake armed. The login puts the client in its world, so that no
    /// respawn is pending any more.
    pub open spec fn join(self, shared: &SharedServer, world: World) -> Step {
        let c = self.client;
        Step {
            client: ClientView { flags: FlagsView { spawn: false, ..c.flags }, ..c },
            out: self.out,
        }.send(world.meta.player_list.initial_spec()).send(seq![login_spec(c, shared, world)]).rearm()
    }

    /// A pending respawn: the client has no chunk and sees no entity any
    /// more, is sent to the dummy dimension and from there to the dimension
    /// of its world, and the handshake is armed.
    pub open spec fn respawn(self, world: World) -> Step {
        let c = self.client;
        if !c.flags.spawn {
            self
        } else {
            Step {
                client: ClientView {
                    flags: FlagsView { spawn: false, ..c.flags },
                    loaded_entities: Seq::empty(),
                    loaded_chunks: Seq::empty(),
                    ..c
                },
                out: self.out,
            }.send(seq![dummy_respawn_spec(c), respawn_spec(c, world)]).rearm()
        }
    }

    /// A change of game mode is told.
    pub open spec fn game_mode_change(self) -> Step {
        let c = self.client;
        if c.old_game_mode == c.new_game_mode {
            self
        } else {
            Step {
                client: ClientView { old_game_mode: c.new_game_mode, ..c },
                out: self.out,
            }.send(
                seq![
                    S2cView::Plain(
                        S2cPlayPacket::GameEvent {
                            reason: GameEventReason::ChangeGameMode,
                            value: (c.new_game_mode.id() * ONE) as i64,
                        },
                    ),
                ],
            )
        }
    }

    /// What begins an update: the join on a client's first tick; later a
    /// pending respawn, a change of game mode and what changed in the roster.
    pub open spec fn arrive(self, shared: &SharedServer, world: World) -> Step {
        if self.client.created_tick == shared.current_tick {
            self.join(shared, world)
        } else {
            self.respawn(world).game_mode_change().send(world.meta.player_list.diff_spec())
        }
    }

    /// The attack speed and the movement speed are told where they changed.
    pub open spec fn attributes(self) -> Step {
        let c = self.client;
        let first = if c.flags.attack_speed_modified {
            seq![
                S2cView::Plain(
                    S2cPlayPacket::UpdateAttributes {
                        entity_id: 0,
                        key: Attribute::AttackSpeed,
                        value: c.attack_speed,
                    },
                ),
            ]
        } else {
            Seq::empty()
        };
        let second = if c.flags.movement_speed_modified {
            seq![
                S2cView::Plain(
                    S2cPlayPacket::UpdateAttributes {
                        entity_id: 0,
                        key: Attribute::MovementSpeed,
                        value: c.movement_speed,
                    },
                ),
            ]
        } else {
            Seq::empty()
        };
        Step {
            client: ClientView {
                flags: FlagsView {
                    attack_speed_modified: false,
                    movement_speed_modified: false,
                    ..c.flags
                },
                ..c
            },
            out: self.out,
        }.send(first + second)
    }

    /// The spawn position is told where it changed.
    pub open spec fn spawn_position(self) -> Step {
        let c = self.client;
        if !c.flags.modified_spawn_position {
            self
        } else {
            Step {
                client: ClientView {
                    flags: FlagsView { modified_spawn_position: false, ..c.flags },
                    ..c
                },
                out: self.out,
            }.send(
                seq![
                    S2cView::Plain(
                        S2cPlayPacket::SpawnPosition {
                            location: c.spawn_position,
                            angle: c.spawn_position_yaw,
                        },
                    ),
                ],
            )
        }
    }

    /// The allowed view distance is told where it changed, but not on the
    /// client's first tick: the login packet carried it.
    pub open spec fn view_distance_change(self, now: Ticks) -> Step {
        let c = self.client;
        if c.old_max_view_distance == c.new_max_view_distance {
            self
        } else {
            let told = Step {
                client: ClientView { old_max_view_distance: c.new_max_view_distance, ..c },
                out: self.out,
            };
            if c.created_tick != now {
                told.send(
                    seq![
                        S2cView::Plain(
                            S2cPlayPacket::SetChunkCacheRadius {
                                view_distance: c.new_max_view_distance as i32,
                            },
                        ),
                    ],
                )
            } else {
                told
            }
        }
    }

    /// Where a keep-alive is due: a client that answered the last is sent
    /// the next, under the identifier `id`; the outbox of one that did not
    /// is closed.
    pub open spec fn keepalive(self, due: bool, id: i64) -> Step {
        let c = self.client;
        if !due {
            self
        } else if c.flags.got_keepalive {
            Step {
                client: ClientView {
                    last_keepalive_id: id,
                    flags: FlagsView { got_keepalive: false, ..c.flags },
                    ..c
                },
                out: self.out,
            }.send(seq![S2cView::Plain(S2cPlayPacket::KeepAlive { id })])
        } else {
            Step { client: c, out: self.out.close() }
        }
    }

    /// The centre of the client's chunks is told where the client came into
    /// another chunk section.
    pub open spec fn section_change(self) -> Step {
        let c = self.client;
        if c.old_position.section_of() == c.new_position.section_of() {
            self
        } else {
            self.send(
                seq![
                    S2cView::Plain(
                        S2cPlayPacket::SetChunkCacheCenter {
                            chunk_x: c.new_position.section_of().x,
                            chunk_z: c.new_position.section_of().z,
                        },
                    ),
                ],
            )
        }
    }

    /// The chunks the client has are brought up to date or forgotten.
    pub open spec fn retain_chunks(self, world: World, min_y: i32, now: Ticks) -> Step {
        let c = self.client;
        Step {
            client: ClientView {
                loaded_chunks: retained_chunks(c, world, now, c.loaded_chunks),
                ..c
            },
            out: self.out,
        }.send(retain_stream(c, world, min_y, now, c.loaded_chunks))
    }

    /// The chunks of the view that the client lacks are sent.
    pub open spec fn load_chunks(self, world: World, min_y: i32) -> Step {
        let c = self.client;
        let n = (view_side(c.view_distance()) * view_side(c.view_distance())) as nat;
        Step {
            client: ClientView {
                loaded_chunks: loaded_after(c, world, c.loaded_chunks, n),
                ..c
            },
            out: self.out,
        }.send(load_stream(c, world, min_y, c.loaded_chunks, n))
    }

    /// What the client dug is acknowledged.
    pub open spec fn dig_acks(self) -> Step {
        let c = self.client;
        Step { client: ClientView { dug_blocks: Seq::empty(), ..c }, out: self.out }.send(
            ack_stream(c.dug_blocks),
        )
    }

    /// A teleport of this tick is told, under the identifier of the newest
    /// handshake.
    pub open spec fn teleport_packet(self) -> Step {
        let c = self.client;
        if !c.flags.teleported_this_tick {
            self
        } else {
            Step {
                client: ClientView {
                    flags: FlagsView { teleported_this_tick: false, ..c.flags },
                    ..c
                },
                out: self.out,
            }.send(
                seq![
                    S2cView::Plain(
                        S2cPlayPacket::PlayerPosition {
                            position: c.new_position,
                            yaw: c.yaw,
                            pitch: c.pitch,
                            flags: 0,
                            teleport_id: signed_bits(
                                crate::client::ingress::wrapping_diff(c.teleport_id_counter, 1),
                            ),
                            dismount_vehicle: false,
                        },
                    ),
                ],
            )
        }
    }

    /// A velocity set by the game is told.
    pub open spec fn velocity_packet(self) -> Step {
        let c = self.client;
        if !c.flags.velocity_modified {
            self
        } else {
            Step {
                client: ClientView {
                    flags: FlagsView { velocity_modified: false, ..c.flags },
                    ..c
                },
                out: self.out,
            }.send(
                seq![
                    S2cView::Plain(
                        S2cPlayPacket::SetEntityMotion {
                            entity_id: 0,
                            velocity: c.velocity.to_packet_velocity(),
                        },
                    ),
                ],
            )
        }
    }

    /// The messages kept for the client are sent.
    pub open spec fn chat(self) -> Step {
        let c = self.client;
        Step { client: ClientView { msgs_to_send: Seq::empty(), ..c }, out: self.out }.send(
            chat_stream(c.msgs_to_send),
        )
    }

    /// The entities the client sees are brought up to date; those it ceases
    /// to see are removed, all in one packet.
    pub open spec fn update_entities(self, entities: &Entities) -> Step {
        let c = self.client;
        Step {
            client: ClientView {
                loaded_entities: retained_entities(c, entities, c.loaded_entities),
                ..c
            },
            out: self.out,
        }.send(entities_stream(c, entities, c.loaded_entities)).send(
            remove_packet(unloaded_entities(c, entities, c.loaded_entities)),
        )
    }

    /// The client is told what changed of its own player's metadata.
    pub open spec fn self_metadata(self) -> Step {
        self.send(optional(metadata_packet_spec(0, self.client.player_updated)))
    }

    /// The entities near the client that it does not see yet are shown.
    pub open spec fn discover(self, entities: &Entities, world: World) -> Step {
        let c = self.client;
        let near = near_entities(c, world);
        Step {
            client: ClientView {
                loaded_entities: discovered(c, entities, c.loaded_entities, near),
                ..c
            },
            out: self.out,
        }.send(discover_stream(c, entities, c.loaded_entities, near))
    }

    /// The client is told the events of its own player.
    pub open spec fn self_events(self) -> Step {
        self.send(self_event_stream(self.client.player_events))
    }

    /// What ends an update: what was written and raised on the client's own
    /// player is forgotten, and the position becomes the old position.
    pub open spec fn sweep(self) -> Step {
        Step { client: self.client.swept(), out: self.out }
    }

    /// The first stage of an update, what the client is told of itself: its
    /// arrival, its attributes, its spawn position, its view distance, the
    /// keep-alive (due or not, under the identifier `fresh_id`) and the centre
    /// of its chunks.
    #[verifier::opaque]
    pub open spec fn herald(self, shared: &SharedServer, world: World, fresh_id: i64) -> Step {
        let now = shared.current_tick;
        self.arrive(shared, world).attributes().spawn_position().view_distance_change(
            now,
        ).keepalive(shared.keepalive_due_spec(now), fresh_id).section_change()
    }

    /// The second stage of an update, the chunks: those the client has are
    /// brought up to date or forgotten, those it lacks are sent.
    #[verifier::opaque]
    pub open spec fn terrain(self, world: World, min_y: i32, now: Ticks) -> Step {
        self.retain_chunks(world, min_y, now).load_chunks(world, min_y)
    }

    /// The third stage of an update, what waited for the chunks: the
    /// acknowledgements, the teleport, the velocity and the chat.
    #[verifier::opaque]
    pub open spec fn settle(self) -> Step {
        self.dig_acks().teleport_packet().velocity_packet().chat()
    }

    /// The fourth stage of an update, the entities: those the client sees
    /// are brought up to date or removed, its own metadata is told, and
    /// those near it that it does not see are shown.
    #[verifier::opaque]
    pub open spec fn populate(self, entities: &Entities, world: World) -> Step {
        self.update_entities(entities).self_metadata().discover(entities, world)
    }

    /// The last stage of an update: the events of the client's own player,
    /// and the sweep.
    #[verifier::opaque]
    pub open spec fn conclude(self) -> Step {
        self.self_events().sweep()
    }

    /// The update of a client in `world`: its five stages, in order.
    pub open spec fn tick_in(
        self,
        shared: &SharedServer,
        entities: &Entities,
        world: World,
        min_y: i32,
        fresh_id: i64,
    ) -> Step {
        self.herald(shared, world, fresh_id).terrain(world, min_y, shared.current_tick).settle().populate(
            entities,
            world,
        ).conclude()
    }

    /// The update of a client: where its world does not exist, or is of a
    /// dimension that is not configured, the outbox is closed and nothing
    /// else happens.
    pub open spec fn tick(
        self,
        shared: &SharedServer,
        entities: &Entities,
        worlds: &Worlds,
        fresh_id: i64,
    ) -> Step {
        match resolve_world(self.client, shared, worlds) {
            Some((world, min_y)) => self.tick_in(shared, entities, world, min_y, fresh_id),
            None => Step { client: self.client, out: self.out.close() },
        }
    }
}

/// Hands `out` one packet for each of the event codes `codes`.
pub fn send_entity_events(out: &mut Outbox, entity_id: i32, codes: &Vec<u8>)
    ensures
        final(out)@ == old(out)@.extend(event_stream(entity_id, codes@)),
{
    let mut i: usize = 0;
    proof {
        lemma_extend_nothing(out@);
    }
    while i < codes.len()
        invariant
            i <= codes@.len(),
            out@ == old(out)@.extend(event_stream(entity_id, codes@).subrange(0, i as int)),
        decreases codes@.len() - i,
    {
        let p = event_packet(entity_id, codes[i]);
        proof {
            let stream = event_stream(entity_id, codes@);
            lemma_extend_emit(old(out)@, stream.subrange(0, i as int), p@);
            assert(stream.subrange(0, i as int).push(p@) =~= stream.subrange(0, i + 1));
        }
        out.emit(p);
        i = i + 1;
    }
    proof {
        let stream = event_stream(entity_id, codes@);
        assert(stream.subrange(0, i as int) =~= stream);
    }
}

/// Hands `out` what a client that sees `e` is sent of its move this tick.
pub fn send_movement(out: &mut Outbox, e: &Entity, id: EntityId)
    ensures
        final(out)@ == old(out)@.extend(movement_packets(*e, id)),
{
    let nid: i32 = id.to_network_id();
    let delta: Vec3 = e.position.saturating_sub(e.old_position);
    let far: bool = delta.exceeds_relative_move();
    let near: bool = e.position != e.old_position && !far;
    let yaw: u8 = byte_angle(e.yaw);
    let pitch: u8 = byte_angle(e.pitch);
    proof {
        lemma_extend_nothing(out@);
    }
    if near && e.yaw_or_pitch_modified {
        out.emit(
            S2cPlayPacket::MoveEntityPositionAndRotation {
                entity_id: nid,
                delta: delta.delta(),
                yaw,
                pitch,
                on_ground: e.on_ground,
            },
        );
    } else {
        if near {
            out.emit(
                S2cPlayPacket::MoveEntityPosition {
                    entity_id: nid,
                    delta: delta.delta(),
                    on_ground: e.on_ground,
                },
            );
        }
        if e.yaw_or_pitch_modified {
            out.emit(
                S2cPlayPacket::MoveEntityRotation {
                    entity_id: nid,
                    yaw,
                    pitch,
                    on_ground: e.on_ground,
                },
            );
        }
    }
    if far {
        out.emit(
            S2cPlayPacket::TeleportEntity {
                entity_id: nid,
                position: e.position,
                yaw,
                pitch,
                on_ground: e.on_ground,
            },
        );
    }
    assert(out@ =~= old(out)@.extend(movement_packets(*e, id)));
}

/// Hands `out` what a client that sees `e` is sent of it.
pub fn send_entity_update(out: &mut Outbox, e: &Entity, id: EntityId)
    ensures
        final(out)@ == old(out)@.extend(entity_packets(*e, id)),
{
    let nid: i32 = id.to_network_id();
    proof {
        lemma_extend_nothing(out@);
    }
    out.emit_some(metadata_packet(nid, &e.data.updated));
    send_movement(out, e, id);
    if e.velocity_modified {
        out.emit(
            S2cPlayPacket::SetEntityMotion { entity_id: nid, velocity: e.velocity.packet_velocity() },
        );
    }
    if e.head_yaw_modified {
        out.emit(S2cPlayPacket::RotateHead { entity_id: nid, head_yaw: byte_angle(e.head_yaw) });
    }
    send_entity_events(out, nid, &e.data.event_codes);
    assert(out@ =~= old(out)@.extend(entity_packets(*e, id)));
}

/// Hands `out` the packets that show `e` to a client that has not seen it.
pub fn send_entity_spawn(out: &mut Outbox, e: &Entity, id: EntityId)
    ensures
        final(out)@ == old(out)@.extend(show_packets(*e, id)),
{
    let nid: i32 = id.to_network_id();
    proof {
        lemma_extend_nothing(out@);
    }
    out.emit_some(e.spawn_packet(id));
    out.emit_some(metadata_packet(nid, &e.data.initial));
    send_entity_events(out, nid, &e.data.event_codes);
    assert(out@ =~= old(out)@.extend(show_packets(*e, id)));
}

impl Client {
    /// The login packet for the client in `world`.
    fn login_packet(&self, shared: &SharedServer, world: &World) -> (p: S2cPlayPacket)
        ensures
            p@ == login_spec(self@, shared, *world),
    {
        let mut dimension_names: Vec<DimensionName> = Vec::new();
        let mut i: usize = 0;
        while i < shared.dimensions.len() && i < 0x1_0000
            invariant
                i <= dimension_count(shared),
                dimension_names@ == Seq::new(
                    i as nat,
                    |j: int| DimensionName::Dimension(DimensionId(j as u16)),
                ),
            decreases dimension_count(shared) - i,
        {
            dimension_names.push(DimensionName::Dimension(DimensionId(i as u16)));
            i = i + 1;
        }
        dimension_names.push(DimensionName::Dummy);
        let last_death_location = match self.death_location {
            Some((id, position)) => Some(
                DeathLocation { dimension: DimensionName::Dimension(id), position },
            ),
            None => None,
        };
        S2cPlayPacket::Login(
            Login {
                entity_id: 0,  // The entity ID 0 is reserved for the client itself.
                is_hardcore: self.flags.get(ClientFlag::Hardcore),
                gamemode: self.new_game_mode,
                previous_gamemode: self.old_game_mode,
                dimension_names,
                registry_codec: make_registry_codec(shared),
                dimension_type_name: DimensionTypeName(world.meta.dimension),
                dimension_name: DimensionName::Dimension(world.meta.dimension),
                hashed_seed: 0,
                max_players: 0,
                view_distance: self.new_max_view_distance as i32,
                simulation_distance: 16,
                reduced_debug_info: false,
                enable_respawn_screen: false,
                is_debug: false,
                is_flat: world.meta.is_flat,
                last_death_location,
            },
        )
    }

    fn rearm(&mut self, out: &mut Outbox)
        ensures
            (Step { client: final(self)@, out: final(out)@ }) == (Step {
                client: old(self)@,
                out: old(out)@,
            }).rearm(),
    {
        let pos = self.new_position;
        let yaw = self.yaw;
        let pitch = self.pitch;
        if !self.arm_teleport(pos, yaw, pitch) {
            out.close();
        }
    }

    fn join(&mut self, shared: &SharedServer, world: &World, out: &mut Outbox)
        ensures
            (Step { client: final(self)@, out: final(out)@ }) == (Step {
                client: old(self)@,
                out: old(out)@,
            }).join(shared, *world),
    {
        world.meta.player_list.initial_packets(out);
        let p = self.login_packet(shared, world);
        out.emit(p);
        self.flags.set(ClientFlag::Spawn, false);
        self.rearm(out);
    }

    fn respawn(&mut self, world: &World, out: &mut Outbox)
        ensures
            (Step { client: final(self)@, out: final(out)@ }) == (Step {
                client: old(self)@,
                out: old(out)@,
            }).respawn(*world),
    {
        if self.flags.get(ClientFlag::Spawn) {
            self.flags.set(ClientFlag::Spawn, false);
            self.loaded_entities.clear();
            self.loaded_chunks.clear();
            let last_death_location = match self.death_location {
                Some((id, position)) => Some(
                    DeathLocation { dimension: DimensionName::Dimension(id), position },
                ),
                None => None,
            };
            // Client bug workaround: send the client to a dummy dimension first.
            out.emit(
                S2cPlayPacket::Respawn(
                    Respawn {
                        dimension_type_name: DimensionTypeName(DimensionId(0)),
                        dimension_name: DimensionName::Dummy,
                        hashed_seed: 0,
                        game_mode: self.new_game_mode,
                        previous_game_mode: self.new_game_mode,
                        is_debug: false,
                        is_flat: false,
                        copy_metadata: true,
                        last_death_location: None,
                    },
                ),
            );
            out.emit(
                S2cPlayPacket::Respawn(
                    Respawn {
                        dimension_type_name: DimensionTypeName(world.meta.dimension),
                        dimension_name: DimensionName::Dimension(world.meta.dimension),
                        hashed_seed: 0,
                        game_mode: self.new_game_mode,
                        previous_game_mode: self.new_game_mode,
                        is_debug: false,
                        is_flat: world.meta.is_flat,
                        copy_metadata: true,
                        last_death_location,
                    },
                ),
            );
            assert(out@ =~= old(out)@.extend(
                seq![dummy_respawn_spec(old(self)@), respawn_spec(old(self)@, *world)],
            ));
            self.rearm(out);
        }
    }

    fn game_mode_change(&mut self, out: &mut Outbox)
        ensures
            (Step { client: final(self)@, out: final(out)@ }) == (Step {
                client: old(self)@,
                out: old(out)@,
            }).game_mode_change(),
    {
        if self.old_game_mode != self.new_game_mode {
            self.old_game_mode = self.new_game_mode;
            out.emit(
                S2cPlayPacket::GameEvent {
                    reason: GameEventReason::ChangeGameMode,
                    value: self.new_game_mode.to_id() as i64 * ONE,
                },
            );
        }
    }

    fn arrive(&mut self, shared: &SharedServer, world: &World, out: &mut Outbox)
        ensures
            (Step { client: final(self)@, out: final(out)@ }) == (Step {
                client: old(self)@,
                out: old(out)@,
            }).arrive(shared, *world),
    {
        // The join game packet and the other initial packets are sent now and
        // not when the client is made, so that the game can set the client's
        // location, game mode, etc. first.
        if self.created_tick == shared.current_tick() {
            self.join(shared, world, out);
        } else {
            self.respawn(world, out);
            self.game_mode_change(out);
            world.meta.player_list.diff_packets(out);
        }
    }

    fn attributes(&mut self, out: &mut Outbox)
        ensures
            (Step { client: final(self)@, out: final(out)@ }) == (Step {
                client: old(self)@,
                out: old(out)@,
            }).attributes(),
    {
        proof {
            lemma_extend_nothing(out@);
        }
        if self.flags.get(ClientFlag::AttackSpeedModified) {
            self.flags.set(ClientFlag::AttackSpeedModified, false);
            out.emit(
                S2cPlayPacket::UpdateAttributes {
                    entity_id: 0,
                    key: Attribute::AttackSpeed,
                    value: self.attack_speed,
                },
            );
        }
        if self.flags.get(ClientFlag::MovementSpeedModified) {
            self.flags.set(ClientFlag::MovementSpeedModified, false);
            out.emit(
                S2cPlayPacket::UpdateAttributes {
                    entity_id: 0,
                    key: Attribute::MovementSpeed,
                    value: self.movement_speed,
                },
            );
        }
        assert(out@ =~= (Step { client: old(self)@, out: old(out)@ }).attributes().out);
    }

    fn spawn_position_packet(&mut self, out: &mut Outbox)
        ensures
            (Step { client: final(self)@, out: final(out)@ }) == (Step {
                client: old(self)@,
                out: old(out)@,
            }).spawn_position(),
    {
        // The spawn position is what compasses point at.
        if self.flags.get(ClientFlag::ModifiedSpawnPosition) {
            self.flags.set(ClientFlag::ModifiedSpawnPosition, false);
            out.emit(
                S2cPlayPacket::SpawnPosition {
                    location: self.spawn_position,
                    angle: self.spawn_position_yaw,
                },
            );
        }
    }

    fn view_distance_change(&mut self, now: Ticks, out: &mut Outbox)
        ensures
            (Step { client: final(self)@, out: final(out)@ }) == (Step {
                client: old(self)@,
                out: old(out)@,
            }).view_distance_change(now),
    {
        // The view distance fog on the client follows the allowed distance.
        if self.old_max_view_distance != self.new_max_view_distance {
            self.old_max_view_distance = self.new_max_view_distance;
            if self.created_tick != now {
                out.emit(
                    S2cPlayPacket::SetChunkCacheRadius {
                        view_distance: self.new_max_view_distance as i32,
                    },
                );
            }
        }
    }

    fn keepalive(&mut self, due: bool, id: i64, out: &mut Outbox)
        ensures
            (Step { client: final(self)@, out: final(out)@ }) == (Step {
                client: old(self)@,
                out: old(out)@,
            }).keepalive(due, id),
    {
        if due {
            if self.flags.get(ClientFlag::GotKeepalive) {
                out.emit(S2cPlayPacket::KeepAlive { id });
                self.last_keepalive_id = id;
                self.flags.set(ClientFlag::GotKeepalive, false);
            } else {
                // The client timed out: no answer to the last keep-alive.
                out.close();
            }
        }
    }

    fn section_change(&self, out: &mut Outbox)
        ensures
            (Step { client: self@, out: final(out)@ }) == (Step {
                client: self@,
                out: old(out)@,
            }).section_change(),
    {
        let old_section = self.old_position.section();
        let new_section = self.new_position.section();
        if old_section != new_section {
            out.emit(
                S2cPlayPacket::SetChunkCacheCenter {
                    chunk_x: new_section.x,
                    chunk_z: new_section.z,
                },
            );
        }
    }

    fn retain_chunks(&mut self, world: &World, min_y: i32, now: Ticks, out: &mut Outbox)
        ensures
            (Step { client: final(self)@, out: final(out)@ }) == (Step {
                client: old(self)@,
                out: old(out)@,
            }).retain_chunks(*world, min_y, now),
    {
        let view_dist: u8 = self.view_distance();
        let center = ChunkPos::at(self.new_position.x, self.new_position.z);
        // The cache stops chunk data packets from needing to be sent when a
        // player moves to an adjacent chunk and back to where it came from.
        let reach: u16 = view_dist as u16 + CHUNK_CACHE;
        let mut kept: ChunkSet = ChunkSet::new();
        let ghost c = self@;
        let ghost o = out@;
        let mut i: usize = 0;
        proof {
            lemma_extend_nothing(o);
            assert(c.loaded_chunks.subrange(0, 0) =~= Seq::<ChunkPos>::empty());
        }
        let had: usize = self.loaded_chunks.len();
        while i < had
            invariant
                self@ == c,
                self.loaded_chunks@ == c.loaded_chunks,
                had == c.loaded_chunks.len(),
                c.loaded_chunks.no_duplicates(),
                i <= c.loaded_chunks.len(),
                center == center_of(c),
                view_dist == c.view_distance(),
                reach == view_dist + CHUNK_CACHE,
                kept@ == retained_chunks(c, *world, now, c.loaded_chunks.subrange(0, i as int)),
                out@ == o.extend(
                    retain_stream(c, *world, min_y, now, c.loaded_chunks.subrange(0, i as int)),
                ),
            decreases c.loaded_chunks.len() - i,
        {
            let pos: ChunkPos = self.loaded_chunks.get(i);
            proof {
                let next = c.loaded_chunks.subrange(0, i + 1);
                let prev = c.loaded_chunks.subrange(0, i as int);
                assert(next.drop_last() =~= prev);
                assert(next.last() == pos);
                // What is kept so far lacks this position: the client had
                // it once.
                lemma_retained_chunks(c, *world, now, prev, pos);
                if prev.contains(pos) {
                    let j = choose|j: int| 0 <= j < prev.len() && prev[j] == pos;
                    assert(c.loaded_chunks[j] == c.loaded_chunks[i as int]);
                }
                lemma_extend_extend(
                    o,
                    retain_stream(c, *world, min_y, now, c.loaded_chunks.subrange(0, i as int)),
                    retain_packets(c, *world, min_y, now, pos),
                );
            }
            let mut keep: bool = false;
            match world.chunks.get(pos) {
                Some(chunk) => {
                    if pos.in_view(center, reach) && chunk.created_tick() != now {
                        chunk.block_change_packets(pos, min_y, out);
                        keep = true;
                    }
                },
                None => {},
            }
            if keep {
                kept.push_new(pos);
            } else {
                out.emit(S2cPlayPacket::ForgetLevelChunk { chunk_x: pos.x, chunk_z: pos.z });
            }
            i = i + 1;
        }
        proof {
            assert(c.loaded_chunks.subrange(0, i as int) =~= c.loaded_chunks);
        }
        self.loaded_chunks = kept;
    }

    fn load_chunks(&mut self, world: &World, min_y: i32, out: &mut Outbox)
        ensures
            (Step { client: final(self)@, out: final(out)@ }) == (Step {
                client: old(self)@,
                out: old(out)@,
            }).load_chunks(*world, min_y),
    {
        let view_dist: u8 = self.view_distance();
        let center = ChunkPos::at(self.new_position.x, self.new_position.z);
        let side: u32 = 2 * view_dist as u32 + 1;
        assert(side * side <= 511 * 511) by (nonlinear_arith)
            requires
                side <= 511,
        ;
        let total: u32 = side * side;
        let ghost c = self@;
        let ghost o = out@;
        let mut k: u32 = 0;
        proof {
            lemma_extend_nothing(o);
        }
        while k < total
            invariant
                k <= total,
                side == view_side(view_dist),
                total == side * side,
                center == center_of(c),
                view_dist == c.view_distance(),
                self@ == (ClientView {
                    loaded_chunks: loaded_after(c, *world, c.loaded_chunks, k as nat),
                    ..c
                }),
                out@ == o.extend(load_stream(c, *world, min_y, c.loaded_chunks, k as nat)),
            decreases total - k,
        {
            let x: i64 = center.x as i64 - view_dist as i64 + (k % side) as i64;
            let z: i64 = center.z as i64 - view_dist as i64 + (k / side) as i64;
            proof {
                lemma_extend_extend(
                    o,
                    load_stream(c, *world, min_y, c.loaded_chunks, k as nat),
                    load_packets(
                        *world,
                        min_y,
                        view_cell(center_of(c), c.view_distance(), k as int)->0,
                    ),
                );
            }
            if i32::MIN as i64 <= x && x <= i32::MAX as i64 && i32::MIN as i64 <= z && z
                <= i32::MAX as i64 {
                let pos = ChunkPos { x: x as i32, z: z as i32 };
                match world.chunks.get(pos) {
                    Some(chunk) => {
                        if self.loaded_chunks.insert(pos) {
                            let ghost before = out@;
                            out.emit(chunk.chunk_data_packet(pos));
                            chunk.block_change_packets(pos, min_y, out);
                            proof {
                                lemma_extend_extend(
                                    before,
                                    seq![chunk.chunk_data_spec(pos)],
                                    chunk.block_change_stream(pos, min_y),
                                );
                            }
                        }
                    },
                    None => {},
                }
            }
            k = k + 1;
        }
    }

    fn dig_acks(&mut self, out: &mut Outbox)
        ensures
            (Step { client: final(self)@, out: final(out)@ }) == (Step {
                client: old(self)@,
                out: old(out)@,
            }).dig_acks(),
    {
        let ghost c = self@;
        let ghost o = out@;
        let mut i: usize = 0;
        proof {
            lemma_extend_nothing(o);
        }
        while i < self.dug_blocks.len()
            invariant
                self@ == c,
                self.dug_blocks@ == c.dug_blocks,
                i <= c.dug_blocks.len(),
                out@ == o.extend(ack_stream(c.dug_blocks).subrange(0, i as int)),
            decreases c.dug_blocks.len() - i,
        {
            let p = S2cPlayPacket::BlockChangeAck { sequence: self.dug_blocks[i] };
            proof {
                let stream = ack_stream(c.dug_blocks);
                lemma_extend_emit(o, stream.subrange(0, i as int), p@);
                assert(stream.subrange(0, i as int).push(p@) =~= stream.subrange(0, i + 1));
            }
            out.emit(p);
            i = i + 1;
        }
        proof {
            let stream = ack_stream(c.dug_blocks);
            assert(stream.subrange(0, i as int) =~= stream);
        }
        self.dug_blocks.clear();
    }

    fn teleport_packet(&mut self, out: &mut Outbox)
        ensures
            (Step { client: final(self)@, out: final(out)@ }) == (Step {
                client: old(self)@,
                out: old(out)@,
            }).teleport_packet(),
    {
        // The teleport comes after the chunks, so that the "downloading
        // terrain" screen closes at the right time.
        if self.flags.get(ClientFlag::TeleportedThisTick) {
            self.flags.set(ClientFlag::TeleportedThisTick, false);
            out.emit(
                S2cPlayPacket::PlayerPosition {
                    position: self.new_position,
                    yaw: self.yaw,
                    pitch: self.pitch,
                    flags: 0,
                    teleport_id: to_signed(self.teleport_id_counter.wrapping_sub(1)),
                    dismount_vehicle: false,
                },
            );
        }
    }

    fn velocity_packet(&mut self, out: &mut Outbox)
        ensures
            (Step { client: final(self)@, out: final(out)@ }) == (Step {
                client: old(self)@,
                out: old(out)@,
            }).velocity_packet(),
    {
        // The velocity comes after the teleport, which sets it to zero.
        if self.flags.get(ClientFlag::VelocityModified) {
            self.flags.set(ClientFlag::VelocityModified, false);
            out.emit(
                S2cPlayPacket::SetEntityMotion {
                    entity_id: 0,
                    velocity: self.velocity.packet_velocity(),
                },
            );
        }
    }

    fn chat(&mut self, out: &mut Outbox)
        ensures
            (Step { client: final(self)@, out: final(out)@ }) == (Step {
                client: old(self)@,
                out: old(out)@,
            }).chat(),
    {
        let mut msgs: Vec<Text> = Vec::new();
        std::mem::swap(&mut self.msgs_to_send, &mut msgs);
        let ghost o = out@;
        let ghost all = msgs@;
        proof {
            lemma_extend_nothing(o);
        }
        for msg in it: msgs
            invariant
                it.seq() == all,
                out@ == o.extend(chat_stream(all).subrange(0, it.index() as int)),
        {
            let p = S2cPlayPacket::SystemChat { chat: msg, kind: 0 };
            proof {
                let stream = chat_stream(all);
                let i = it.index() as int;
                lemma_extend_emit(o, stream.subrange(0, i), p@);
                assert(stream.subrange(0, i).push(p@) =~= stream.subrange(0, i + 1));
            }
            out.emit(p);
        }
        proof {
            let stream = chat_stream(all);
            assert(stream.subrange(0, all.len() as int) =~= stream);
        }
    }

    fn update_entities(&mut self, entities: &Entities, out: &mut Outbox)
        requires
            entities.wf(),
        ensures
            (Step { client: final(self)@, out: final(out)@ }) == (Step {
                client: old(self)@,
                out: old(out)@,
            }).update_entities(entities),
    {
        let view_dist: u8 = self.view_distance();
        let radius: Fixed = view_radius(view_dist);
        let position: Vec3 = self.new_position;
        let mut kept: EntitySet = EntitySet::new();
        let mut entities_to_unload: Vec<i32> = Vec::new();
        let ghost c = self@;
        let ghost o = out@;
        let mut i: usize = 0;
        proof {
            lemma_extend_nothing(o);
            assert(c.loaded_entities.subrange(0, 0) =~= Seq::<EntityId>::empty());
            assert(network_ids(Seq::<EntityId>::empty()) =~= Seq::<i32>::empty());
        }
        let saw: usize = self.loaded_entities.len();
        while i < saw
            invariant
                entities.wf(),
                self@ == c,
                self.loaded_entities@ == c.loaded_entities,
                saw == c.loaded_entities.len(),
                c.loaded_entities.no_duplicates(),
                i <= c.loaded_entities.len(),
                position == c.new_position,
                radius == view_radius_spec(c.view_distance()),
                kept@ == retained_entities(c, entities, c.loaded_entities.subrange(0, i as int)),
                entities_to_unload@ == network_ids(
                    unloaded_entities(c, entities, c.loaded_entities.subrange(0, i as int)),
                ),
                out@ == o.extend(
                    entities_stream(c, entities, c.loaded_entities.subrange(0, i as int)),
                ),
            decreases c.loaded_entities.len() - i,
        {
            let id: EntityId = self.loaded_entities.get(i);
            proof {
                let next = c.loaded_entities.subrange(0, i + 1);
                let prev = c.loaded_entities.subrange(0, i as int);
                assert(next.drop_last() =~= prev);
                assert(next.last() == id);
                // What is kept so far lacks this entity: the client saw it
                // once.
                lemma_retained_entities(c, entities, prev, id);
                if prev.contains(id) {
                    let j = choose|j: int| 0 <= j < prev.len() && prev[j] == id;
                    assert(c.loaded_entities[j] == c.loaded_entities[i as int]);
                }
                assert(network_ids(unloaded_entities(c, entities, prev).push(id)) =~= network_ids(
                    unloaded_entities(c, entities, prev),
                ).push(id.network_id()));
                if keeps_entity(c, entities, id) {
                    lemma_extend_extend(
                        o,
                        entities_stream(c, entities, prev),
                        entity_packets(entities@[id], id),
                    );
                }
            }
            let mut keep: bool = false;
            match entities.get(id) {
                Some(entity) => {
                    if position.within(entity.position, radius) {
                        send_entity_update(out, entity, id);
                        keep = true;
                    }
                },
                None => {},
            }
            if keep {
                kept.push_new(id);
            } else {
                entities_to_unload.push(id.to_network_id());
            }
            i = i + 1;
        }
        proof {
            assert(c.loaded_entities.subrange(0, i as int) =~= c.loaded_entities);
        }
        self.loaded_entities = kept;
        if entities_to_unload.len() > 0 {
            out.emit(S2cPlayPacket::RemoveEntities { entities: entities_to_unload });
        } else {
            proof {
                lemma_extend_nothing(out@);
            }
        }
    }

    fn self_metadata(&self, out: &mut Outbox)
        ensures
            (Step { client: self@, out: final(out)@ }) == (Step {
                client: self@,
                out: old(out)@,
            }).self_metadata(),
    {
        // The client's own player has the entity ID 0.
        out.emit_some(metadata_packet(0, &self.player_data.updated));
    }

    fn discover(&mut self, entities: &Entities, world: &World, out: &mut Outbox)
        requires
            entities.wf(),
        ensures
            (Step { client: final(self)@, out: final(out)@ }) == (Step {
                client: old(self)@,
                out: old(out)@,
            }).discover(entities, *world),
    {
        let radius: Fixed = view_radius(self.view_distance());
        let near: Vec<EntityId> = world.spatial_index.query(self.new_position, radius);
        let ghost c = self@;
        let ghost o = out@;
        let mut i: usize = 0;
        proof {
            lemma_extend_nothing(o);
            assert(near@.subrange(0, 0) =~= Seq::<EntityId>::empty());
        }
        while i < near.len()
            invariant
                entities.wf(),
                i <= near@.len(),
                near@ == near_entities(c, *world),
                self@ == (ClientView {
                    loaded_entities: discovered(
                        c,
                        entities,
                        c.loaded_entities,
                        near@.subrange(0, i as int),
                    ),
                    ..c
                }),
                out@ == o.extend(
                    discover_stream(c, entities, c.loaded_entities, near@.subrange(0, i as int)),
                ),
            decreases near@.len() - i,
        {
            let id: EntityId = near[i];
            proof {
                let next = near@.subrange(0, i + 1);
                let prev = near@.subrange(0, i as int);
                assert(next.drop_last() =~= prev);
                assert(next.last() == id);
                if entities@.contains_key(id) {
                    lemma_extend_extend(
                        o,
                        discover_stream(c, entities, c.loaded_entities, prev),
                        show_packets(entities@[id], id),
                    );
                }
            }
            match entities.get(id) {
                Some(entity) => {
                    if entity.kind != EntityKind::Marker && entity.uuid != self.uuid
                        && self.loaded_entities.insert(id) {
                        send_entity_spawn(out, entity, id);
                    }
                },
                None => {},
            }
            i = i + 1;
        }
        proof {
            assert(near@.subrange(0, i as int) =~= near@);
        }
    }

    fn self_events(&self, out: &mut Outbox)
        ensures
            (Step { client: self@, out: final(out)@ }) == (Step {
                client: self@,
                out: old(out)@,
            }).self_events(),
    {
        let codes: &Vec<u8> = &self.player_data.event_codes;
        let ghost o = out@;
        let mut i: usize = 0;
        proof {
            lemma_extend_nothing(o);
            assert(codes@.subrange(0, 0) =~= Seq::<u8>::empty());
        }
        while i < codes.len()
            invariant
                i <= codes@.len(),
                out@ == o.extend(self_event_stream(codes@.subrange(0, i as int))),
            decreases codes@.len() - i,
        {
            let code: u8 = codes[i];
            proof {
                let next = codes@.subrange(0, i + 1);
                assert(next.drop_last() =~= codes@.subrange(0, i as int));
                assert(next.last() == code);
            }
            if code <= ENTITY_EVENT_MAX_BOUND {
                let p = S2cPlayPacket::EntityEvent { entity_id: 0, entity_status: code };
                proof {
                    lemma_extend_emit(o, self_event_stream(codes@.subrange(0, i as int)), p@);
                }
                out.emit(p);
            }
            // Animations of the client's own player are not sent: they
            // would have no effect.
            i = i + 1;
        }
        proof {
            assert(codes@.subrange(0, i as int) =~= codes@);
        }
    }

    fn sweep(&mut self)
        ensures
            final(self)@ == old(self)@.swept(),
    {
        self.player_data.clear_modifications();
        self.old_position = self.new_position;
    }

    /// The update of a client in `world`, a world whose lowest layer is at
    /// `min_y`.
    fn tick_in(
        &mut self,
        shared: &SharedServer,
        entities: &Entities,
        world: &World,
        min_y: i32,
        fresh_id: i64,
        out: &mut Outbox,
    )
        requires
            entities.wf(),
        ensures
            (Step { client: final(self)@, out: final(out)@ }) == (Step {
                client: old(self)@,
                out: old(out)@,
            }).tick_in(shared, entities, *world, min_y, fresh_id),
    {
        proof {
            reveal(Step::herald);
            reveal(Step::terrain);
            reveal(Step::settle);
            reveal(Step::populate);
            reveal(Step::conclude);
        }
        let now: Ticks = shared.current_tick();
        self.arrive(shared, world, out);
        self.attributes(out);
        self.spawn_position_packet(out);
        self.view_distance_change(now, out);
        self.keepalive(shared.keepalive_due(), fresh_id, out);
        self.section_change(out);
        self.retain_chunks(world, min_y, now, out);
        self.load_chunks(world, min_y, out);
        self.dig_acks(out);
        self.teleport_packet(out);
        self.velocity_packet(out);
        self.chat(out);
        self.update_entities(entities, out);
        self.self_metadata(out);
        self.discover(entities, world, out);
        self.self_events(out);
        self.sweep();
    }

    /// The egress phase of a tick for this client, but for the channel:
    /// brings the client's state to the end of the tick and hands `out` the
    /// packets that the client is owed, in the order that it is owed them.
    /// `fresh_id` is the identifier of the keep-alive, should one fall due.
    ///
    /// The outbox is closed where the client must be disconnected once it
    /// was sent what the outbox holds: its world is gone, it did not answer
    /// the last keep-alive in time, or its pending teleports overflow.
    pub fn tick(
        &mut self,
        shared: &SharedServer,
        entities: &Entities,
        worlds: &Worlds,
        fresh_id: i64,
        out: &mut Outbox,
    )
        requires
            entities.wf(),
            worlds.wf(),
        ensures
            (Step { client: final(self)@, out: final(out)@ }) == (Step {
                client: old(self)@,
                out: old(out)@,
            }).tick(shared, entities, worlds, fresh_id),
    {
        match worlds.get(self.world) {
            Some(world) => {
                match shared.dimension(world.meta.dimension) {
                    Some(dimension) => {
                        self.tick_in(shared, entities, world, dimension.min_y, fresh_id, out);
                    },
                    None => {
                        out.close();
                    },
                }
            },
            None => {
                // The client is in an invalid world and must be disconnected.
                out.close();
            },
        }
    }

    /// The egress phase of a tick for this client.
    ///
    /// A client that is disconnected is left alone. One whose connection is
    /// gone in either direction is disconnected and nothing else happens to
    /// it. Any other client is brought to the end
    /// of the tick as [`Self::tick`] does, for a keep-alive identifier drawn
    /// at random; the packets are sent in order, and the client is
    /// disconnected where the channel fails or the outbox came back closed.
    pub fn update(&mut self, shared: &SharedServer, entities: &Entities, worlds: &Worlds)
        requires
            entities.wf(),
            worlds.wf(),
        ensures
            updated(old(self)@, final(self)@, shared, entities, worlds),
    {
        // Mark the client as disconnected when appropriate.
        let gone: bool = match &self.send.sender {
            Some(s) => sender_is_disconnected(s),
            None => true,
        };
        if gone || receiver_is_disconnected(&self.recv) {
            self.send.sender = None;
            proof {
                lemma_updated_by_disconnect(old(self)@, shared, entities, worlds);
            }
            return ;
        }
        let fresh_id: i64 = random_i64();
        let mut out = Outbox::new();
        self.tick(shared, entities, worlds, fresh_id, &mut out);
        let ghost end = (Step {
            client: old(self)@,
            out: OutboxView { packets: Seq::empty(), open: true },
        }).tick(shared, entities, worlds, fresh_id);
        let open: bool = out.open;
        let ghost ticked = self@;
        self.send_all(out.packets);
        let ghost sent = self@;
        if !open {
            self.disconnect_no_reason();
        }
        proof {
            assert(ticked == end.client);
            assert(offered(ticked, sent, end.out.packets));
            if !open {
                lemma_offered_then_disconnected(ticked, sent, end.out.packets);
            }
            lemma_updated_by_tick(old(self)@, self@, shared, entities, worlds, fresh_id);
        }
    }
}

} // verus!
