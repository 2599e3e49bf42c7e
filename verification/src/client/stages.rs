//! What each stage of an update leaves alone, and what it adds to the
//! outbox.

use vstd::prelude::*;
use crate::client::egress::{
    ack_stream, chat_stream, discover_stream, dummy_respawn_spec, entities_stream,
    entity_packets, event_stream, load_stream, loaded_after, login_spec, movement_packets,
    near_entities, remove_packet, respawn_spec, retain_stream, retained_chunks,
    self_event_stream, show_packets, unloaded_entities, view_side, Step,
};
use crate::client::ClientView;
use crate::entity::{Entities, Entity, EntityId};
use crate::geometry::ChunkPos;
use crate::outbox::{optional, OutboxView};
use crate::player_list::{entries_diff, entry_diff, PlayerListEntry};
use crate::s2c::{S2cPlayPacket, S2cView};
use crate::server::SharedServer;
use crate::world::World;
use crate::Ticks;

verus! {

/// Whether the packet `p` is one of the three that tell of chunks: a chunk
/// handed over, a chunk to forget, a block updated.
pub open spec fn about_chunks(p: S2cView) -> bool {
    match p {
        S2cView::LevelChunkWithLight { chunk_x, chunk_z, blocks } => true,
        S2cView::Plain(S2cPlayPacket::ForgetLevelChunk { chunk_x, chunk_z }) => true,
        S2cView::Plain(S2cPlayPacket::BlockUpdate { location, block_id }) => true,
        _ => false,
    }
}

/// Whether the packet `p` is a keep-alive.
pub open spec fn is_keepalive(p: S2cView) -> bool {
    match p {
        S2cView::Plain(S2cPlayPacket::KeepAlive { id }) => true,
        _ => false,
    }
}

/// Whether the packet `p` removes entities from a client's sight.
pub open spec fn is_remove(p: S2cView) -> bool {
    p is RemoveEntities
}

/// Whether the packet `p` tells of the move of an entity: a relative move,
/// with or without the rotation, or a teleport.
pub open spec fn is_move(p: S2cView) -> bool {
    match p {
        S2cView::Plain(S2cPlayPacket::MoveEntityPosition { entity_id, delta, on_ground }) => true,
        S2cView::Plain(
            S2cPlayPacket::MoveEntityPositionAndRotation { entity_id, delta, yaw, pitch, on_ground },
        ) => true,
        S2cView::Plain(
            S2cPlayPacket::TeleportEntity { entity_id, position, yaw, pitch, on_ground },
        ) => true,
        _ => false,
    }
}

/// Whether the packet `p` belongs to one step of the update alone: it tells
/// of chunks, is a keep-alive, or removes entities.
pub open spec fn staged(p: S2cView) -> bool {
    about_chunks(p) || is_keepalive(p) || is_remove(p)
}

/// Whether the packet `p` is one that these lemmas keep track of: one that
/// is staged, or one that tells of the move of an entity.
pub open spec fn marked(p: S2cView) -> bool {
    staged(p) || is_move(p)
}

/// Whether none of the packets `ps` is staged.
pub open spec fn calm(ps: Seq<S2cView>) -> bool {
    forall|i: int| 0 <= i < ps.len() ==> !staged(#[trigger] ps[i])
}

/// Whether nothing that came to the outbox between `a` and `b` is staged.
pub open spec fn calm_since(a: OutboxView, b: OutboxView) -> bool {
    forall|i: int| a.packets.len() <= i < b.packets.len() ==> !staged(#[trigger] b.packets[i])
}

/// Whether none of the packets `ps` is marked.
pub open spec fn unmarked(ps: Seq<S2cView>) -> bool {
    forall|i: int| 0 <= i < ps.len() ==> !marked(#[trigger] ps[i])
}

/// Whether the outbox `b` is the outbox `a` later in an update: it holds
/// what `a` held and then what came since, and it is closed if `a` was.
pub open spec fn grown(a: OutboxView, b: OutboxView) -> bool {
    &&& a.packets.len() <= b.packets.len()
    &&& forall|i: int| 0 <= i < a.packets.len() ==> #[trigger] b.packets[i] == a.packets[i]
    &&& b.open ==> a.open
}

/// Whether nothing that came to the outbox between `a` and `b` is marked.
pub open spec fn no_marks_since(a: OutboxView, b: OutboxView) -> bool {
    forall|i: int| a.packets.len() <= i < b.packets.len() ==> !marked(#[trigger] b.packets[i])
}

/// Whether `b` is in the place of `a`, sees as far and is the same client.
pub open spec fn same_outlook(a: ClientView, b: ClientView) -> bool {
    &&& a.new_position == b.new_position
    &&& a.settings == b.settings
    &&& a.new_max_view_distance == b.new_max_view_distance
    &&& a.uuid == b.uuid
    &&& a.connected == b.connected
    &&& a.created_tick == b.created_tick
    &&& a.world == b.world
}

/// No diff of a roster is marked.
pub proof fn lemma_entries_diff_unmarked(entries: Seq<PlayerListEntry>)
    ensures
        unmarked(entries_diff(entries)),
    decreases entries.len(),
{
    if entries.len() > 0 {
        lemma_entries_diff_unmarked(entries.drop_last());
        let head = entries_diff(entries.drop_last());
        let tail = entry_diff(entries.last());
        assert forall|i: int| 0 <= i < (head + tail).len() implies !marked(
            #[trigger] (head + tail)[i],
        ) by {
            if i < head.len() {
                assert((head + tail)[i] == head[i]);
            } else {
                assert((head + tail)[i] == tail[i - head.len()]);
            }
        }
    }
}

/// Two runs of packets without a marked one make one such run.
pub proof fn lemma_unmarked_concat(a: Seq<S2cView>, b: Seq<S2cView>)
    requires
        unmarked(a),
        unmarked(b),
    ensures
        unmarked(a + b),
{
    assert forall|i: int| 0 <= i < (a + b).len() implies !marked(#[trigger] (a + b)[i]) by {
        if i < a.len() {
            assert((a + b)[i] == a[i]);
        } else {
            assert((a + b)[i] == b[i - a.len()]);
        }
    }
}

/// Two runs of packets without a staged one make one such run.
pub proof fn lemma_calm_concat(a: Seq<S2cView>, b: Seq<S2cView>)
    requires
        calm(a),
        calm(b),
    ensures
        calm(a + b),
{
    assert forall|i: int| 0 <= i < (a + b).len() implies !staged(#[trigger] (a + b)[i]) by {
        if i < a.len() {
            assert((a + b)[i] == a[i]);
        } else {
            assert((a + b)[i] == b[i - a.len()]);
        }
    }
}

/// Nothing that tells of the move of an entity is staged.
proof fn lemma_movement_calm(e: Entity, id: EntityId)
    ensures
        calm(movement_packets(e, id)),
{
    let ps = movement_packets(e, id);
    assert forall|i: int| 0 <= i < ps.len() implies !staged(#[trigger] ps[i]) by {
        assert(ps.len() <= 3);
        if i == 0 {
        } else if i == 1 {
        } else {
        }
    }
}

/// Nothing that is sent of one entity is staged, and nothing that shows it
/// is marked.
pub proof fn lemma_entity_packets_calm(e: Entity, id: EntityId)
    ensures
        calm(entity_packets(e, id)),
        unmarked(show_packets(e, id)),
{
    let nid = id.network_id();
    let events = event_stream(nid, e.data.event_codes@);
    assert(unmarked(events));
    lemma_movement_calm(e, id);
    let updated = optional(crate::entity::metadata_packet_spec(nid, e.data.updated@));
    let initial = optional(crate::entity::metadata_packet_spec(nid, e.data.initial@));
    let spawn = optional(
        match e.spawn_packet_spec(id) {
            Some(p) => Some(S2cView::Plain(p)),
            None => None,
        },
    );
    let velocity = if e.velocity_modified {
        seq![
            S2cView::Plain(
                S2cPlayPacket::SetEntityMotion {
                    entity_id: nid,
                    velocity: e.velocity.to_packet_velocity(),
                },
            ),
        ]
    } else {
        Seq::empty()
    };
    let head = if e.head_yaw_modified {
        seq![
            S2cView::Plain(
                S2cPlayPacket::RotateHead {
                    entity_id: nid,
                    head_yaw: crate::fixed::byte_angle_spec(e.head_yaw) as u8,
                },
            ),
        ]
    } else {
        Seq::empty()
    };
    assert(unmarked(updated));
    assert(unmarked(initial));
    assert(unmarked(spawn));
    assert(unmarked(velocity));
    assert(unmarked(head));
    lemma_calm_concat(updated, movement_packets(e, id));
    lemma_calm_concat(updated + movement_packets(e, id), velocity);
    lemma_calm_concat(updated + movement_packets(e, id) + velocity, head);
    lemma_calm_concat(updated + movement_packets(e, id) + velocity + head, events);
    lemma_unmarked_concat(spawn, initial);
    lemma_unmarked_concat(spawn + initial, events);
}

/// Nothing that is sent of the entities a client sees is staged.
pub proof fn lemma_entities_stream_calm(
    c: ClientView,
    entities: &Entities,
    loaded: Seq<EntityId>,
)
    ensures
        calm(entities_stream(c, entities, loaded)),
    decreases loaded.len(),
{
    if loaded.len() > 0 {
        lemma_entities_stream_calm(c, entities, loaded.drop_last());
        lemma_entity_packets_calm(entities@[loaded.last()], loaded.last());
        lemma_calm_concat(
            entities_stream(c, entities, loaded.drop_last()),
            entity_packets(entities@[loaded.last()], loaded.last()),
        );
    }
}

/// Nothing that is sent of the entities a client comes to see is marked.
pub proof fn lemma_discover_stream_unmarked(
    c: ClientView,
    entities: &Entities,
    start: Seq<EntityId>,
    near: Seq<EntityId>,
)
    ensures
        unmarked(discover_stream(c, entities, start, near)),
    decreases near.len(),
{
    if near.len() > 0 {
        lemma_discover_stream_unmarked(c, entities, start, near.drop_last());
        lemma_entity_packets_calm(entities@[near.last()], near.last());
    }
}

/// No event of a client's own player is marked.
pub proof fn lemma_self_events_unmarked(codes: Seq<u8>)
    ensures
        unmarked(self_event_stream(codes)),
    decreases codes.len(),
{
    if codes.len() > 0 {
        lemma_self_events_unmarked(codes.drop_last());
    }
}

/// An outbox that was handed packets has grown, and by no marked packet if
/// none of them was one.
pub proof fn lemma_extend_grows(o: OutboxView, ps: Seq<S2cView>)
    ensures
        grown(o, o.extend(ps)),
        grown(o, o.close()),
        grown(o, o),
        no_marks_since(o, o.close()),
        no_marks_since(o, o),
        unmarked(ps) ==> no_marks_since(o, o.extend(ps)),
        calm(ps) ==> calm_since(o, o.extend(ps)),
        o.open ==> o.extend(ps).packets == o.packets + ps,
        o.open ==> o.extend(ps).open,
{
    if unmarked(ps) {
        assert forall|i: int| o.packets.len() <= i < o.extend(ps).packets.len() implies !marked(
            #[trigger] o.extend(ps).packets[i],
        ) by {
            assert(o.extend(ps).packets[i] == ps[i - o.packets.len()]);
        }
    }
    if calm(ps) {
        assert forall|i: int| o.packets.len() <= i < o.extend(ps).packets.len() implies !staged(
            #[trigger] o.extend(ps).packets[i],
        ) by {
            assert(o.extend(ps).packets[i] == ps[i - o.packets.len()]);
        }
    }
}

/// Growing is transitive, and so is growing by no marked packet.
pub proof fn lemma_grown_trans(a: OutboxView, b: OutboxView, c: OutboxView)
    requires
        grown(a, b),
        grown(b, c),
    ensures
        grown(a, c),
        no_marks_since(a, b) && no_marks_since(b, c) ==> no_marks_since(a, c),
{
    if no_marks_since(a, b) && no_marks_since(b, c) {
        assert forall|i: int| a.packets.len() <= i < c.packets.len() implies !marked(
            #[trigger] c.packets[i],
        ) by {
            if i < b.packets.len() {
                assert(c.packets[i] == b.packets[i]);
            }
        }
    }
}

/// Whether the step from `a` to `b` left the client where it is, with the
/// chunks and entities it has and the same keep-alive outstanding or none,
/// and handed the outbox no marked packet.
#[verifier::opaque]
pub open spec fn advanced(a: Step, b: Step) -> bool {
    &&& same_outlook(a.client, b.client)
    &&& b.client.loaded_chunks == a.client.loaded_chunks
    &&& b.client.loaded_entities == a.client.loaded_entities
    &&& b.client.flags.got_keepalive == a.client.flags.got_keepalive
    &&& b.client.last_keepalive_id == a.client.last_keepalive_id
    &&& grown(a.out, b.out)
    &&& no_marks_since(a.out, b.out)
}

/// Two such steps make one.
pub proof fn lemma_advanced_trans(a: Step, b: Step, c: Step)
    requires
        advanced(a, b),
        advanced(b, c),
    ensures
        advanced(a, c),
{
    reveal(advanced);
    lemma_grown_trans(a.out, b.out, c.out);
}

/// A step that hands the outbox packets of which none is marked, and
/// changes of the client neither place nor chunks nor entities nor the
/// keep-alive, is such a step.
pub proof fn lemma_advanced_by(s: Step, c: ClientView, ps: Seq<S2cView>)
    requires
        same_outlook(s.client, c),
        c.loaded_chunks == s.client.loaded_chunks,
        c.loaded_entities == s.client.loaded_entities,
        c.flags.got_keepalive == s.client.flags.got_keepalive,
        c.last_keepalive_id == s.client.last_keepalive_id,
        unmarked(ps),
    ensures
        advanced(s, Step { client: c, out: s.out }.send(ps)),
        advanced(s, Step { client: c, out: s.out }),
        advanced(s, Step { client: c, out: s.out.close() }),
{
    reveal(advanced);
    lemma_extend_grows(s.out, ps);
}

proof fn lemma_rearm(s: Step)
    ensures
        advanced(s, s.rearm()),
{
    let c = s.client;
    lemma_advanced_by(
        s,
        ClientView { connected: c.connected, ..c.teleported(c.new_position, c.yaw, c.pitch) },
        Seq::empty(),
    );
}

proof fn lemma_join(s: Step, shared: &SharedServer, world: World)
    ensures
        advanced(s, s.join(shared, world)),
{
    let c = s.client;
    let cleared = Step {
        client: ClientView {
            flags: crate::flags::FlagsView { spawn: false, ..c.flags },
            ..c
        },
        out: s.out,
    };
    let listed = cleared.send(world.meta.player_list.initial_spec());
    let logged = listed.send(seq![login_spec(c, shared, world)]);
    lemma_advanced_by(s, cleared.client, world.meta.player_list.initial_spec());
    lemma_advanced_by(listed, listed.client, seq![login_spec(c, shared, world)]);
    lemma_rearm(logged);
    lemma_advanced_trans(s, listed, logged);
    lemma_advanced_trans(s, logged, logged.rearm());
}

/// A pending respawn leaves the client where it is, without chunks and
/// entities, and makes the next two packets: to the dummy dimension, and to
/// that of the world.
proof fn lemma_respawn(s: Step, world: World)
    ensures
        !s.client.flags.spawn ==> advanced(s, s.respawn(world)),
        s.client.flags.spawn ==> {
            let r = s.respawn(world);
            &&& same_outlook(s.client, r.client)
            &&& r.client.loaded_chunks == Seq::<ChunkPos>::empty()
            &&& r.client.loaded_entities == Seq::<EntityId>::empty()
            &&& grown(s.out, r.out)
            &&& no_marks_since(s.out, r.out)
            &&& r.client.flags.got_keepalive == s.client.flags.got_keepalive
            &&& r.client.last_keepalive_id == s.client.last_keepalive_id
            &&& s.out.open ==> {
                &&& r.out.packets.len() >= s.out.packets.len() + 2
                &&& r.out.packets[s.out.packets.len() as int] == dummy_respawn_spec(s.client)
                &&& r.out.packets[s.out.packets.len() as int + 1] == respawn_spec(
                    s.client,
                    world,
                )
            }
        },
{
    reveal(advanced);
    let c = s.client;
    if c.flags.spawn {
        let bounce = seq![dummy_respawn_spec(c), respawn_spec(c, world)];
        let sent = Step {
            client: ClientView {
                flags: crate::flags::FlagsView { spawn: false, ..c.flags },
                loaded_entities: Seq::empty(),
                loaded_chunks: Seq::empty(),
                ..c
            },
            out: s.out,
        }.send(bounce);
        lemma_extend_grows(s.out, bounce);
        lemma_rearm(sent);
        lemma_grown_trans(s.out, sent.out, sent.rearm().out);
        if s.out.open {
            assert(sent.out.packets[s.out.packets.len() as int] == bounce[0]);
            assert(sent.out.packets[s.out.packets.len() as int + 1] == bounce[1]);
        }
    } else {
        lemma_extend_grows(s.out, Seq::empty());
    }
}

proof fn lemma_game_mode_change(s: Step)
    ensures
        advanced(s, s.game_mode_change()),
{
    let c = s.client;
    lemma_advanced_by(
        s,
        ClientView { old_game_mode: c.new_game_mode, ..c },
        seq![
            S2cView::Plain(
                S2cPlayPacket::GameEvent {
                    reason: crate::s2c::GameEventReason::ChangeGameMode,
                    value: (c.new_game_mode.id() * crate::fixed::ONE) as i64,
                },
            ),
        ],
    );
    lemma_advanced_by(s, c, Seq::empty());
}

proof fn lemma_attributes(s: Step)
    ensures
        advanced(s, s.attributes()),
{
    let c = s.client;
    let first = if c.flags.attack_speed_modified {
        seq![
            S2cView::Plain(
                S2cPlayPacket::UpdateAttributes {
                    entity_id: 0,
                    key: crate::s2c::Attribute::AttackSpeed,
                    value: c.attack_speed,
                },
            ),
        ]
    } else {
        Seq::empty()
    };
    let second = if c.flags.movement_speed_modified {
        seq![
            S2cView::Plain(
                S2cPlayPacket::UpdateAttributes {
                    entity_id: 0,
                    key: crate::s2c::Attribute::MovementSpeed,
                    value: c.movement_speed,
                },
            ),
        ]
    } else {
        Seq::empty()
    };
    lemma_advanced_by(
        s,
        ClientView {
            flags: crate::flags::FlagsView {
                attack_speed_modified: false,
                movement_speed_modified: false,
                ..c.flags
            },
            ..c
        },
        first + second,
    );
}

proof fn lemma_spawn_position(s: Step)
    ensures
        advanced(s, s.spawn_position()),
{
    let c = s.client;
    lemma_advanced_by(
        s,
        ClientView {
            flags: crate::flags::FlagsView { modified_spawn_position: false, ..c.flags },
            ..c
        },
        seq![
            S2cView::Plain(
                S2cPlayPacket::SpawnPosition {
                    location: c.spawn_position,
                    angle: c.spawn_position_yaw,
                },
            ),
        ],
    );
    lemma_advanced_by(s, c, Seq::empty());
}

/// The old view distance is no part of the outlook: the view distance goes
/// by the new one.
proof fn lemma_view_distance_change(s: Step, now: Ticks)
    ensures
        advanced(s, s.view_distance_change(now)),
{
    let c = s.client;
    let told = ClientView { old_max_view_distance: c.new_max_view_distance, ..c };
    lemma_advanced_by(
        s,
        told,
        seq![
            S2cView::Plain(
                S2cPlayPacket::SetChunkCacheRadius { view_distance: c.new_max_view_distance as i32 },
            ),
        ],
    );
    lemma_advanced_by(s, c, Seq::empty());
}

/// What the keep-alive step does: where a keep-alive is due to a client
/// that answered the last and whose outbox is open, it adds the keep-alive
/// and nothing else, and leaves it outstanding; else it adds nothing and
/// leaves the keep-alive as it was.
pub open spec fn keepalive_stepped(a: Step, b: Step, due: bool, id: i64) -> bool {
    let sends = due && a.client.flags.got_keepalive && a.out.open;
    &&& same_outlook(a.client, b.client)
    &&& b.client.loaded_chunks == a.client.loaded_chunks
    &&& b.client.loaded_entities == a.client.loaded_entities
    &&& grown(a.out, b.out)
    &&& sends ==> {
        &&& b.out.packets == a.out.packets.push(S2cView::Plain(S2cPlayPacket::KeepAlive { id }))
        &&& b.out.open
    }
    &&& !sends ==> b.out.packets == a.out.packets
    &&& due && a.client.flags.got_keepalive ==> !b.client.flags.got_keepalive
        && b.client.last_keepalive_id == id
    &&& !(due && a.client.flags.got_keepalive) ==> b.client.flags.got_keepalive
        == a.client.flags.got_keepalive && b.client.last_keepalive_id
        == a.client.last_keepalive_id
    &&& due && !a.client.flags.got_keepalive ==> !b.out.open
}

proof fn lemma_keepalive(s: Step, due: bool, id: i64)
    ensures
        keepalive_stepped(s, s.keepalive(due, id), due, id),
{
    let one = seq![S2cView::Plain(S2cPlayPacket::KeepAlive { id })];
    lemma_extend_grows(s.out, one);
    lemma_extend_grows(s.out, Seq::empty());
    if s.out.open {
        assert(s.out.extend(one).packets =~= s.out.packets.push(one[0]));
    }
}

proof fn lemma_section_change(s: Step)
    ensures
        advanced(s, s.section_change()),
{
    let c = s.client;
    lemma_advanced_by(
        s,
        c,
        seq![
            S2cView::Plain(
                S2cPlayPacket::SetChunkCacheCenter {
                    chunk_x: c.new_position.section_of().x,
                    chunk_z: c.new_position.section_of().z,
                },
            ),
        ],
    );
}

proof fn lemma_list_diff(s: Step, world: World)
    ensures
        advanced(s, s.send(world.meta.player_list.diff_spec())),
{
    lemma_entries_diff_unmarked(world.meta.player_list.entries@);
    let diff = world.meta.player_list.diff_spec();
    let head = crate::player_list::removal_stream(world.meta.player_list.removed@);
    let tail = entries_diff(world.meta.player_list.entries@);
    assert forall|i: int| 0 <= i < diff.len() implies !marked(#[trigger] diff[i]) by {
        if i < head.len() {
            assert(diff[i] == head[i]);
        } else {
            assert(diff[i] == tail[i - head.len()]);
        }
    }
    lemma_advanced_by(s, s.client, diff);
}

/// What the first stage of an update adds up to, from `s` to `h`: the
/// client stays where it is, and keeps the chunks and entities it has unless
/// a respawn is pending (`respawns`); the outbox gets no chunk packet, none
/// that removes entities and none that tells of a move, and a keep-alive
/// only as the keep-alive step has it; a pending respawn makes the
/// first two packets, to the dummy dimension and to that of the world.
pub open spec fn heralded(
    s: Step,
    h: Step,
    world: World,
    respawns: bool,
    due: bool,
    fresh_id: i64,
) -> bool {
    let c = s.client;
    &&& same_outlook(c, h.client)
    &&& h.client.loaded_chunks == (if respawns {
        Seq::<ChunkPos>::empty()
    } else {
        c.loaded_chunks
    })
    &&& h.client.loaded_entities == (if respawns {
        Seq::<EntityId>::empty()
    } else {
        c.loaded_entities
    })
    &&& grown(s.out, h.out)
    &&& forall|i: int|
        s.out.packets.len() <= i < h.out.packets.len() ==> !about_chunks(#[trigger] h.out.packets[i])
            && !is_remove(h.out.packets[i]) && !is_move(h.out.packets[i])
    &&& forall|i: int, j: int|
        s.out.packets.len() <= i < h.out.packets.len() && s.out.packets.len() <= j
            < h.out.packets.len() && is_keepalive(#[trigger] h.out.packets[i]) && is_keepalive(
            #[trigger] h.out.packets[j],
        ) ==> i == j
    &&& forall|i: int|
        s.out.packets.len() <= i < h.out.packets.len() && is_keepalive(#[trigger] h.out.packets[i])
            ==> {
            &&& due
            &&& c.flags.got_keepalive
            &&& h.out.packets[i] == S2cView::Plain(S2cPlayPacket::KeepAlive { id: fresh_id })
            &&& !h.client.flags.got_keepalive
            &&& h.client.last_keepalive_id == fresh_id
        }
    &&& !(due && c.flags.got_keepalive) ==> h.client.flags.got_keepalive == c.flags.got_keepalive
        && h.client.last_keepalive_id == c.last_keepalive_id
    &&& due && !c.flags.got_keepalive ==> !h.out.open
    &&& respawns && s.out.open ==> {
        &&& h.out.packets.len() >= s.out.packets.len() + 2
        &&& h.out.packets[s.out.packets.len() as int] == dummy_respawn_spec(c)
        &&& h.out.packets[s.out.packets.len() as int + 1] == respawn_spec(c, world)
    }
}

/// The first stage of an update adds up to what [`heralded`] says.
pub proof fn lemma_herald(s: Step, shared: &SharedServer, world: World, fresh_id: i64)
    ensures
        heralded(
            s,
            s.herald(shared, world, fresh_id),
            world,
            s.client.created_tick != shared.current_tick && s.client.flags.spawn,
            shared.keepalive_due_spec(shared.current_tick),
            fresh_id,
        ),
{
    reveal(Step::herald);
    let now = shared.current_tick;
    let due = shared.keepalive_due_spec(now);
    let c = s.client;
    let r = s.respawn(world);
    let g = r.game_mode_change();
    let s1 = s.arrive(shared, world);
    let s2 = s1.attributes();
    let s3 = s2.spawn_position();
    let s4 = s3.view_distance_change(now);
    let s5 = s4.keepalive(due, fresh_id);
    let s6 = s5.section_change();
    lemma_join(s, shared, world);
    lemma_respawn(s, world);
    lemma_game_mode_change(r);
    lemma_list_diff(g, world);
    lemma_attributes(s1);
    lemma_spawn_position(s2);
    lemma_view_distance_change(s3, now);
    lemma_keepalive(s4, due, fresh_id);
    lemma_section_change(s5);
    lemma_advanced_trans(s1, s2, s3);
    lemma_advanced_trans(s1, s3, s4);
    if c.created_tick != now {
        lemma_advanced_trans(r, g, s1);
        lemma_advanced_trans(r, s1, s4);
    } else {
        lemma_advanced_trans(s, s1, s4);
    }
    assert(s6 == s.herald(shared, world, fresh_id));
    lemma_herald_middle(s, r, s4, world, c.created_tick != now);
    lemma_herald_end(s, s4, s5, s6, world, c.created_tick != now && c.flags.spawn, due, fresh_id);
}

/// What the steps of the first stage up to the keep-alive add up to.
proof fn lemma_herald_middle(s: Step, r: Step, m: Step, world: World, later: bool)
    requires
        r == s.respawn(world),
        later ==> advanced(r, m),
        !later ==> advanced(s, m),
        !s.client.flags.spawn ==> advanced(s, r),
        s.client.flags.spawn ==> {
            &&& same_outlook(s.client, r.client)
            &&& r.client.loaded_chunks == Seq::<ChunkPos>::empty()
            &&& r.client.loaded_entities == Seq::<EntityId>::empty()
            &&& grown(s.out, r.out)
            &&& no_marks_since(s.out, r.out)
            &&& r.client.flags.got_keepalive == s.client.flags.got_keepalive
            &&& r.client.last_keepalive_id == s.client.last_keepalive_id
            &&& s.out.open ==> {
                &&& r.out.packets.len() >= s.out.packets.len() + 2
                &&& r.out.packets[s.out.packets.len() as int] == dummy_respawn_spec(s.client)
                &&& r.out.packets[s.out.packets.len() as int + 1] == respawn_spec(
                    s.client,
                    world,
                )
            }
        },
    ensures
        ({
            let c = s.client;
            let respawns = later && c.flags.spawn;
            &&& same_outlook(c, m.client)
            &&& m.client.loaded_chunks == (if respawns {
                Seq::<ChunkPos>::empty()
            } else {
                c.loaded_chunks
            })
            &&& m.client.loaded_entities == (if respawns {
                Seq::<EntityId>::empty()
            } else {
                c.loaded_entities
            })
            &&& m.client.flags.got_keepalive == c.flags.got_keepalive
            &&& m.client.last_keepalive_id == c.last_keepalive_id
            &&& grown(s.out, m.out)
            &&& no_marks_since(s.out, m.out)
            &&& respawns && s.out.open ==> {
                &&& m.out.packets.len() >= s.out.packets.len() + 2
                &&& m.out.packets[s.out.packets.len() as int] == dummy_respawn_spec(c)
                &&& m.out.packets[s.out.packets.len() as int + 1] == respawn_spec(c, world)
            }
        }),
{
    reveal(advanced);
    if later {
        lemma_grown_trans(s.out, r.out, m.out);
        if s.client.flags.spawn && s.out.open {
            assert(m.out.packets[s.out.packets.len() as int] == r.out.packets[s.out.packets.len() as int]);
            assert(m.out.packets[s.out.packets.len() as int + 1] == r.out.packets[s.out.packets.len() as int
                + 1]);
        }
    }
}

/// What the first stage adds up to, from what its steps up to the
/// keep-alive (`s` to `m`), the keep-alive step (`m` to `k`) and the step
/// after it (`k` to `h`) do.
proof fn lemma_herald_end(
    s: Step,
    m: Step,
    k: Step,
    h: Step,
    world: World,
    respawns: bool,
    due: bool,
    fresh_id: i64,
)
    requires
        same_outlook(s.client, m.client),
        m.client.loaded_chunks == (if respawns {
            Seq::<ChunkPos>::empty()
        } else {
            s.client.loaded_chunks
        }),
        m.client.loaded_entities == (if respawns {
            Seq::<EntityId>::empty()
        } else {
            s.client.loaded_entities
        }),
        m.client.flags.got_keepalive == s.client.flags.got_keepalive,
        m.client.last_keepalive_id == s.client.last_keepalive_id,
        grown(s.out, m.out),
        no_marks_since(s.out, m.out),
        respawns && s.out.open ==> {
            &&& m.out.packets.len() >= s.out.packets.len() + 2
            &&& m.out.packets[s.out.packets.len() as int] == dummy_respawn_spec(s.client)
            &&& m.out.packets[s.out.packets.len() as int + 1] == respawn_spec(s.client, world)
        },
        keepalive_stepped(m, k, due, fresh_id),
        advanced(k, h),
    ensures
        heralded(s, h, world, respawns, due, fresh_id),
{
    reveal(advanced);
    lemma_grown_trans(s.out, m.out, k.out);
    lemma_grown_trans(s.out, k.out, h.out);
    lemma_grown_trans(m.out, k.out, h.out);
    let n = s.out.packets.len() as int;
    assert forall|i: int| n <= i < h.out.packets.len() && marked(
        #[trigger] h.out.packets[i],
    ) implies i == m.out.packets.len() && h.out.packets[i] == S2cView::Plain(
        S2cPlayPacket::KeepAlive { id: fresh_id },
    ) && due && m.client.flags.got_keepalive && m.out.open by {
        if i < m.out.packets.len() {
            assert(h.out.packets[i] == m.out.packets[i]);
        } else if i < k.out.packets.len() {
            assert(h.out.packets[i] == k.out.packets[i]);
        }
    }
    if respawns && s.out.open {
        assert(h.out.packets[n] == m.out.packets[n]);
        assert(h.out.packets[n + 1] == m.out.packets[n + 1]);
    }
}

/// The second stage of an update leaves the client where it is and the
/// entities it sees; the chunks it has are those it keeps and those it is
/// sent, and the outbox is handed what is sent of them.
pub proof fn lemma_terrain(s: Step, world: World, min_y: i32, now: Ticks)
    ensures
        ({
            let c = s.client;
            let t = s.terrain(world, min_y, now);
            let n = (view_side(c.view_distance()) * view_side(c.view_distance())) as nat;
            let kept = s.retain_chunks(world, min_y, now).client;
            &&& same_outlook(c, t.client)
            &&& t.client.loaded_entities == c.loaded_entities
            &&& t.client.flags.got_keepalive == c.flags.got_keepalive
            &&& t.client.last_keepalive_id == c.last_keepalive_id
            &&& t.client.loaded_chunks == loaded_after(kept, world, kept.loaded_chunks, n)
            &&& kept.loaded_chunks == retained_chunks(c, world, now, c.loaded_chunks)
            &&& grown(s.out, t.out)
            &&& s.out.open ==> t.out.open && t.out.packets == s.out.packets + (retain_stream(
                c,
                world,
                min_y,
                now,
                c.loaded_chunks,
            ) + load_stream(kept, world, min_y, kept.loaded_chunks, n))
            &&& !s.out.open ==> t.out == s.out
        }),
{
    reveal(Step::terrain);
    let c = s.client;
    let k = s.retain_chunks(world, min_y, now);
    let n = (view_side(c.view_distance()) * view_side(c.view_distance())) as nat;
    let first = retain_stream(c, world, min_y, now, c.loaded_chunks);
    let second = load_stream(k.client, world, min_y, k.client.loaded_chunks, n);
    lemma_extend_grows(s.out, first);
    lemma_extend_grows(k.out, second);
    lemma_grown_trans(s.out, k.out, s.terrain(world, min_y, now).out);
    if s.out.open {
        assert(s.terrain(world, min_y, now).out.packets =~= s.out.packets + (first + second));
    }
}

/// The third stage of an update leaves the client where it is and the
/// chunks and entities it has, and hands the outbox no marked packet.
pub proof fn lemma_settle(s: Step)
    ensures
        same_outlook(s.client, s.settle().client),
        s.settle().client.flags.got_keepalive == s.client.flags.got_keepalive,
        s.settle().client.last_keepalive_id == s.client.last_keepalive_id,
        s.settle().client.loaded_entities == s.client.loaded_entities,
        s.settle().client.loaded_chunks == s.client.loaded_chunks,
        grown(s.out, s.settle().out),
        no_marks_since(s.out, s.settle().out),
        s.settle().out.open == s.out.open,
{
    reveal(Step::settle);
    let s1 = s.dig_acks();
    let s2 = s1.teleport_packet();
    let s3 = s2.velocity_packet();
    let s4 = s3.chat();
    assert(unmarked(ack_stream(s.client.dug_blocks)));
    lemma_extend_grows(s.out, ack_stream(s.client.dug_blocks));
    assert(grown(s1.out, s2.out) && no_marks_since(s1.out, s2.out)) by {
        lemma_extend_grows(s1.out, Seq::empty());
        lemma_extend_grows(
            s1.out,
            seq![
                S2cView::Plain(
                    S2cPlayPacket::PlayerPosition {
                        position: s1.client.new_position,
                        yaw: s1.client.yaw,
                        pitch: s1.client.pitch,
                        flags: 0,
                        teleport_id: crate::wire::signed_bits(
                            crate::client::ingress::wrapping_diff(
                                s1.client.teleport_id_counter,
                                1,
                            ),
                        ),
                        dismount_vehicle: false,
                    },
                ),
            ],
        );
    }
    assert(grown(s2.out, s3.out) && no_marks_since(s2.out, s3.out)) by {
        lemma_extend_grows(s2.out, Seq::empty());
        lemma_extend_grows(
            s2.out,
            seq![
                S2cView::Plain(
                    S2cPlayPacket::SetEntityMotion {
                        entity_id: 0,
                        velocity: s2.client.velocity.to_packet_velocity(),
                    },
                ),
            ],
        );
    }
    assert(unmarked(chat_stream(s3.client.msgs_to_send)));
    lemma_extend_grows(s3.out, chat_stream(s3.client.msgs_to_send));
    lemma_grown_trans(s.out, s1.out, s2.out);
    lemma_grown_trans(s.out, s2.out, s3.out);
    lemma_grown_trans(s.out, s3.out, s4.out);
}

/// What the fourth stage of an update adds up to, from `s` to `p`: the
/// client stays where it is and keeps its chunks; the outbox gets no chunk
/// packet and no keep-alive, and at most one packet that removes entities:
/// it names those that the client ceases to see, and comes where there are
/// any and the outbox is open.
pub open spec fn populated(s: Step, p: Step, entities: &Entities) -> bool {
    let c = s.client;
    let gone = unloaded_entities(c, entities, c.loaded_entities);
    &&& same_outlook(c, p.client)
    &&& p.client.flags.got_keepalive == c.flags.got_keepalive
    &&& p.client.last_keepalive_id == c.last_keepalive_id
    &&& p.client.loaded_chunks == c.loaded_chunks
    &&& grown(s.out, p.out)
    &&& forall|i: int|
        s.out.packets.len() <= i < p.out.packets.len() ==> !about_chunks(#[trigger] p.out.packets[i])
            && !is_keepalive(p.out.packets[i])
    &&& forall|i: int|
        s.out.packets.len() <= i < p.out.packets.len() && is_remove(#[trigger] p.out.packets[i])
            ==> gone.len() > 0 && p.out.packets[i] == remove_packet(gone)[0]
    &&& forall|i: int, j: int|
        s.out.packets.len() <= i < p.out.packets.len() && s.out.packets.len() <= j
            < p.out.packets.len() && is_remove(#[trigger] p.out.packets[i]) && is_remove(
            #[trigger] p.out.packets[j],
        ) ==> i == j
    &&& s.out.open && gone.len() > 0 ==> exists|i: int|
        s.out.packets.len() <= i < p.out.packets.len() && #[trigger] p.out.packets[i]
            == remove_packet(gone)[0]
}

/// The fourth stage of an update adds up to what [`populated`] says, and
/// the entities the client sees after it are those it goes on seeing and
/// those it comes to see.
pub proof fn lemma_populate(s: Step, entities: &Entities, world: World)
    ensures
        populated(s, s.populate(entities, world), entities),
        s.populate(entities, world).client.loaded_entities == s.update_entities(
            entities,
        ).self_metadata().discover(entities, world).client.loaded_entities,
{
    reveal(Step::populate);
    let c = s.client;
    let stream = entities_stream(c, entities, c.loaded_entities);
    let gone = remove_packet(unloaded_entities(c, entities, c.loaded_entities));
    let s0 = Step {
        client: ClientView {
            loaded_entities: crate::client::egress::retained_entities(
                c,
                entities,
                c.loaded_entities,
            ),
            ..c
        },
        out: s.out,
    }.send(stream);
    let s1 = s.update_entities(entities);
    let s2 = s1.self_metadata();
    let s3 = s2.discover(entities, world);
    lemma_entities_stream_calm(c, entities, c.loaded_entities);
    lemma_extend_grows(s.out, stream);
    lemma_extend_grows(s0.out, gone);
    lemma_extend_grows(s1.out, optional(crate::entity::metadata_packet_spec(0, s1.client.player_updated)));
    lemma_discover_stream_unmarked(
        s2.client,
        entities,
        s2.client.loaded_entities,
        near_entities(s2.client, world),
    );
    lemma_extend_grows(
        s2.out,
        discover_stream(
            s2.client,
            entities,
            s2.client.loaded_entities,
            near_entities(s2.client, world),
        ),
    );
    lemma_grown_trans(s1.out, s2.out, s3.out);
    lemma_populate_end(s, s0, s1, s3, entities);
}

/// What the fourth stage adds up to, from what comes before the packet that
/// removes entities (`s` to `a`), that packet (`a` to `b`) and what comes
/// after it (`b` to `p`).
proof fn lemma_populate_end(s: Step, a: Step, b: Step, p: Step, entities: &Entities)
    requires
        same_outlook(s.client, p.client),
        p.client.flags.got_keepalive == s.client.flags.got_keepalive,
        p.client.last_keepalive_id == s.client.last_keepalive_id,
        p.client.loaded_chunks == s.client.loaded_chunks,
        grown(s.out, a.out),
        calm_since(s.out, a.out),
        s.out.open ==> a.out.open,
        b.out == a.out.extend(
            remove_packet(
                unloaded_entities(s.client, entities, s.client.loaded_entities),
            ),
        ),
        grown(b.out, p.out),
        no_marks_since(b.out, p.out),
    ensures
        populated(s, p, entities),
{
    let gone = unloaded_entities(s.client, entities, s.client.loaded_entities);
    let n = s.out.packets.len() as int;
    lemma_extend_grows(a.out, remove_packet(gone));
    lemma_grown_trans(s.out, a.out, b.out);
    lemma_grown_trans(s.out, b.out, p.out);
    lemma_grown_trans(a.out, b.out, p.out);
    assert forall|i: int| n <= i < p.out.packets.len() && staged(
        #[trigger] p.out.packets[i],
    ) implies i == a.out.packets.len() && gone.len() > 0 && a.out.open && p.out.packets[i]
        == remove_packet(gone)[0] by {
        if i < a.out.packets.len() {
            assert(p.out.packets[i] == a.out.packets[i]);
        } else if i < b.out.packets.len() {
            assert(p.out.packets[i] == b.out.packets[i]);
        }
    }
    if s.out.open && gone.len() > 0 {
        let at = a.out.packets.len() as int;
        assert(b.out.packets[at] == remove_packet(gone)[0]);
        assert(p.out.packets[at] == b.out.packets[at]);
    }
}

/// What tells of a move in the fourth stage stands in what is sent of the
/// entities that the client sees, with which the stage begins.
pub proof fn lemma_populate_moves(s: Step, entities: &Entities, world: World, i: int)
    requires
        s.out.packets.len() <= i < s.populate(entities, world).out.packets.len(),
        is_move(s.populate(entities, world).out.packets[i]),
    ensures
        ({
            let stream = entities_stream(s.client, entities, s.client.loaded_entities);
            &&& s.out.open
            &&& i < s.out.packets.len() + stream.len()
            &&& s.populate(entities, world).out.packets[i] == stream[i - s.out.packets.len()]
        }),
{
    reveal(Step::populate);
    let c = s.client;
    let stream = entities_stream(c, entities, c.loaded_entities);
    let gone = remove_packet(unloaded_entities(c, entities, c.loaded_entities));
    let s1 = s.update_entities(entities);
    let s2 = s1.self_metadata();
    let s3 = s2.discover(entities, world);
    let told = optional(crate::entity::metadata_packet_spec(0, s1.client.player_updated));
    let shown = discover_stream(
        s2.client,
        entities,
        s2.client.loaded_entities,
        near_entities(s2.client, world),
    );
    lemma_discover_stream_unmarked(
        s2.client,
        entities,
        s2.client.loaded_entities,
        near_entities(s2.client, world),
    );
    lemma_extend_grows(s1.out, told);
    lemma_extend_grows(s2.out, shown);
    lemma_grown_trans(s1.out, s2.out, s3.out);
    if s.out.open {
        assert(s1.out.packets =~= s.out.packets + stream + gone);
        if i < s1.out.packets.len() {
            assert(s3.out.packets[i] == s1.out.packets[i]);
            if i >= s.out.packets.len() + stream.len() {
                assert(s1.out.packets[i] == gone[i - s.out.packets.len() - stream.len()]);
            }
        } else if i < s2.out.packets.len() {
            assert(s3.out.packets[i] == s2.out.packets[i]);
        }
    } else {
        assert(s3.out == s.out);
    }
}

/// How the fourth stage begins: with what is sent of the entities that the
/// client sees, and the packet that removes those it ceases to see; the rest
/// of the stage comes after.
pub proof fn lemma_populate_begins(s: Step, entities: &Entities, world: World)
    ensures
        ({
            let c = s.client;
            let s1 = s.update_entities(entities);
            &&& s.out.open ==> s1.out.packets == s.out.packets + entities_stream(
                c,
                entities,
                c.loaded_entities,
            ) + remove_packet(unloaded_entities(c, entities, c.loaded_entities))
            &&& grown(s1.out, s.populate(entities, world).out)
        }),
{
    reveal(Step::populate);
    let c = s.client;
    let s1 = s.update_entities(entities);
    let s2 = s1.self_metadata();
    let s3 = s2.discover(entities, world);
    lemma_extend_grows(s1.out, optional(crate::entity::metadata_packet_spec(0, s1.client.player_updated)));
    lemma_extend_grows(
        s2.out,
        discover_stream(
            s2.client,
            entities,
            s2.client.loaded_entities,
            near_entities(s2.client, world),
        ),
    );
    lemma_grown_trans(s1.out, s2.out, s3.out);
    if s.out.open {
        assert(s1.out.packets =~= s.out.packets + entities_stream(c, entities, c.loaded_entities)
            + remove_packet(unloaded_entities(c, entities, c.loaded_entities)));
    }
}

/// The last stage of an update leaves the client where it is and the chunks
/// and entities it has, and hands the outbox no marked packet.
pub proof fn lemma_conclude(s: Step)
    ensures
        same_outlook(s.client, s.conclude().client),
        s.conclude().client.flags.got_keepalive == s.client.flags.got_keepalive,
        s.conclude().client.last_keepalive_id == s.client.last_keepalive_id,
        s.conclude().client.loaded_entities == s.client.loaded_entities,
        s.conclude().client.loaded_chunks == s.client.loaded_chunks,
        s.conclude().client.old_position == s.client.new_position,
        grown(s.out, s.conclude().out),
        no_marks_since(s.out, s.conclude().out),
{
    reveal(Step::conclude);
    lemma_self_events_unmarked(s.client.player_events);
    lemma_extend_grows(s.out, self_event_stream(s.client.player_events));
}

} // verus!
