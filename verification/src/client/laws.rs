//! What holds of every client, whatever it is sent and whatever the game
//! does with it.

use vstd::prelude::*;
use crate::c2s::C2sPlayPacket;
use crate::client::egress::{
    admits_entity, center_of, discovered, dummy_respawn_spec, entities_stream, entity_packets,
    keeps_chunk, keeps_entity, movement_packets,
    load_packets, load_stream, loaded_after, loads_cell, near_entities, network_ids,
    remove_packet, respawn_spec, retain_packets, retain_stream, retained_chunks,
    retained_entities, unloaded_entities, view_cell, view_side, Step,
};
use crate::client::ingress::wrapping_diff;
use crate::client::stages::{
    about_chunks, grown, heralded, is_keepalive, is_move, is_remove, lemma_conclude,
    lemma_grown_trans,
    lemma_herald, lemma_populate, lemma_settle, lemma_terrain, no_marks_since, populated,
    same_outlook,
};
use crate::client::{new_client_view, ClientView, NewClientData};
use crate::entity::{Entities, Entity, EntityId, EntityKind};
use crate::fixed::{Fixed, MAX_RELATIVE_MOVE};
use crate::geometry::{in_view_spec, ChunkPos, Vec3};
use crate::outbox::{optional, OutboxView};
use crate::s2c::{S2cPlayPacket, S2cView};
use crate::seqs::{
    lemma_concat_contains, lemma_last_contains, lemma_push_contains, lemma_push_no_duplicates,
};
use crate::server::SharedServer;
use crate::wire::{lemma_bits_round_trip, signed_bits, unsigned_bits};
use crate::world::World;
use crate::Ticks;

verus! {

/// A teleport confirmation that carries the expected identifier takes
/// exactly one from the pending teleports and leaves the client connected;
/// no packet whatever adds to the pending teleports, and none takes more
/// than one from them.
pub proof fn law_teleport_acknowledged(
    c: ClientView,
    entities: &Entities,
    teleport_id: i32,
    pkt: C2sPlayPacket,
)
    ensures
        c.pending_teleports > 0 && unsigned_bits(teleport_id) == c.expected_teleport_id() ==> {
            &&& c.accept_teleport(teleport_id).pending_teleports == c.pending_teleports - 1
            &&& c.accept_teleport(teleport_id).connected == c.connected
        },
        c.pending_teleports - 1 <= c.after_packet(entities, pkt).pending_teleports
            <= c.pending_teleports,
        c.pending_teleports == 0 ==> c.after_packet(entities, pkt).pending_teleports == 0,
{
}

/// While a teleport is pending, no packet from the client moves it.
pub proof fn law_position_held_while_teleporting(
    c: ClientView,
    entities: &Entities,
    pkt: C2sPlayPacket,
)
    requires
        c.pending_teleports > 0,
    ensures
        c.after_packet(entities, pkt).new_position == c.new_position,
        c.after_packet(entities, pkt).yaw == c.yaw,
        c.after_packet(entities, pkt).pitch == c.pitch,
{
}

/// No packet reconnects a client, adds to its pending teleports, or moves
/// it while a teleport stays pending.
pub proof fn lemma_packet_keeps_teleports(c: ClientView, entities: &Entities, pkt: C2sPlayPacket)
    ensures
        c.after_packet(entities, pkt).pending_teleports <= c.pending_teleports,
        c.after_packet(entities, pkt).connected ==> c.connected,
        c.after_packet(entities, pkt).pending_teleports > 0 ==> c.after_packet(
            entities,
            pkt,
        ).new_position == c.new_position,
{
}

/// What holds of one packet holds of any run of packets.
pub proof fn lemma_packets_keep_teleports(
    c: ClientView,
    entities: &Entities,
    pkts: Seq<C2sPlayPacket>,
    from: int,
)
    requires
        0 <= from,
    ensures
        c.after_packets(entities, pkts, from).pending_teleports <= c.pending_teleports,
        c.after_packets(entities, pkts, from).connected ==> c.connected,
        c.after_packets(entities, pkts, from).pending_teleports > 0 ==> c.after_packets(
            entities,
            pkts,
            from,
        ).new_position == c.new_position,
    decreases pkts.len() - from,
{
    if from < pkts.len() {
        let next = c.after_packet(entities, pkts[from]);
        lemma_packet_keeps_teleports(c, entities, pkts[from]);
        lemma_packets_keep_teleports(next, entities, pkts, from + 1);
        assert(c.after_packets(entities, pkts, from) == next.after_packets(
            entities,
            pkts,
            from + 1,
        ));
    }
}

/// Over an ingress phase the pending teleports never grow, a client that is
/// disconnected stays so, and a client that has a teleport pending at the
/// end is where it was at the beginning.
pub proof fn law_ingress_keeps_teleports(
    c: ClientView,
    entities: &Entities,
    pkts: Seq<C2sPlayPacket>,
)
    ensures
        c.ingress(entities, pkts).pending_teleports <= c.pending_teleports,
        c.ingress(entities, pkts).connected ==> c.connected,
        c.ingress(entities, pkts).pending_teleports > 0 ==> c.ingress(entities, pkts).new_position
            == c.new_position,
{
    lemma_packets_keep_teleports(ClientView { events: Seq::empty(), ..c }, entities, pkts, 0);
}

/// A client with no keep-alive outstanding has answered the last one. A
/// keep-alive is sent only to such a client and leaves it with one
/// outstanding; a client with one outstanding is sent none, so that there
/// are never two. Only the answer that carries the identifier of the one
/// outstanding settles it.
pub proof fn law_one_keepalive_outstanding(s: Step, due: bool, id: i64, answer: i64)
    requires
        s.out.open,
    ensures
        due && s.client.flags.got_keepalive ==> {
            &&& s.keepalive(due, id).out.packets == s.out.packets.push(
                S2cView::Plain(S2cPlayPacket::KeepAlive { id }),
            )
            &&& !s.keepalive(due, id).client.flags.got_keepalive
            &&& s.keepalive(due, id).client.last_keepalive_id == id
        },
        !(due && s.client.flags.got_keepalive) ==> s.keepalive(due, id).out.packets
            == s.out.packets,
        !s.client.flags.got_keepalive && due ==> !s.keepalive(due, id).out.open,
        s.client.keepalive_answered(answer).flags.got_keepalive && s.client.keepalive_answered(
            answer,
        ).connected ==> !s.client.flags.got_keepalive && answer == s.client.last_keepalive_id,
{
    assert(s.out.extend(seq![S2cView::Plain(S2cPlayPacket::KeepAlive { id })]).packets
        =~= s.out.packets.push(S2cView::Plain(S2cPlayPacket::KeepAlive { id })));
}

/// A teleport of a client that awaits no confirmation, once the
/// confirmation with the identifier that the teleport packet carries is in,
/// leaves no teleport pending and the client where it was sent.
pub proof fn law_teleport_round_trip(c: ClientView, out: OutboxView, p: Vec3, yaw: Fixed, pitch: Fixed)
    requires
        c.pending_teleports == 0,
        !c.flags.teleported_this_tick,
        out.open,
    ensures
        ({
            let sent = c.teleported(p, yaw, pitch);
            let id = signed_bits(wrapping_diff(sent.teleport_id_counter, 1));
            let told = (Step { client: sent, out }).teleport_packet();
            let done = told.client.accept_teleport(id);
            &&& sent.pending_teleports == 1
            &&& told.out.packets == out.packets.push(
                S2cView::Plain(
                    S2cPlayPacket::PlayerPosition {
                        position: p,
                        yaw,
                        pitch,
                        flags: 0,
                        teleport_id: id,
                        dismount_vehicle: false,
                    },
                ),
            )
            &&& done.pending_teleports == 0
            &&& done.new_position == p
            &&& done.connected == c.connected
        }),
{
    let sent = c.teleported(p, yaw, pitch);
    let id = signed_bits(wrapping_diff(sent.teleport_id_counter, 1));
    lemma_bits_round_trip(wrapping_diff(sent.teleport_id_counter, 1), 0);
    let told = (Step { client: sent, out }).teleport_packet();
    assert(told.out.packets =~= out.packets.push(
        S2cView::Plain(
            S2cPlayPacket::PlayerPosition {
                position: p,
                yaw,
                pitch,
                flags: 0,
                teleport_id: id,
                dismount_vehicle: false,
            },
        ),
    ));
}

/// Several teleports in one tick arm one handshake: the second and later
/// ones move the client and leave the pending teleports as they are.
pub proof fn law_teleports_coalesce(c: ClientView, p: Vec3, yaw: Fixed, pitch: Fixed)
    requires
        c.flags.teleported_this_tick,
    ensures
        c.teleported(p, yaw, pitch).pending_teleports == c.pending_teleports,
        c.teleported(p, yaw, pitch).teleport_id_counter == c.teleport_id_counter,
        c.teleported(p, yaw, pitch).new_position == p,
        c.teleported(p, yaw, pitch).connected == c.connected,
{
}

/// A move of less than eight blocks on every axis is carried exactly by a
/// relative-move packet: the sixteen bits of each axis, widened again and
/// added to the old position, give the new position.
pub proof fn law_relative_move_exact(e: Entity)
    requires
        e.position.minus(e.old_position).max_abs() < MAX_RELATIVE_MOVE,
    ensures
        ({
            let carried = e.position.minus(e.old_position).to_delta().widen();
            &&& e.old_position.x + carried.x == e.position.x
            &&& e.old_position.y + carried.y == e.position.y
            &&& e.old_position.z + carried.z == e.position.z
        }),
{
}

/// A pending respawn sends the client to the dummy dimension and, with the
/// very next packet, to the dimension of its world, whichever dimension it
/// was in; the two packets name different dimensions. The client has no
/// chunk and sees no entity afterwards.
pub proof fn law_respawn_bounces(s: Step, world: World)
    requires
        s.client.flags.spawn,
        s.out.open,
    ensures
        s.respawn(world).out.packets == s.out.packets.push(dummy_respawn_spec(s.client)).push(
            respawn_spec(s.client, world),
        ),
        dummy_respawn_spec(s.client) != respawn_spec(s.client, world),
        s.respawn(world).client.loaded_chunks.len() == 0,
        s.respawn(world).client.loaded_entities.len() == 0,
        !s.respawn(world).client.flags.spawn,
{
    assert(s.out.extend(seq![dummy_respawn_spec(s.client), respawn_spec(s.client, world)]).packets
        =~= s.out.packets.push(dummy_respawn_spec(s.client)).push(
        respawn_spec(s.client, world),
    ));
}

/// Whether the packet `p` tells a client to forget the chunk at `pos`.
pub open spec fn forgets(p: S2cView, pos: ChunkPos) -> bool {
    p == S2cView::Plain(S2cPlayPacket::ForgetLevelChunk { chunk_x: pos.x, chunk_z: pos.z })
}

/// Whether the packet `p` hands a client the whole chunk at `pos`.
pub open spec fn hands_over(p: S2cView, pos: ChunkPos) -> bool {
    match p {
        S2cView::LevelChunkWithLight { chunk_x, chunk_z, blocks } => chunk_x == pos.x && chunk_z
            == pos.z,
        _ => false,
    }
}

/// Whether the entity `id` can come into the sight of the client `c`: it is
/// there, is no marker and is not the client's own.
pub open spec fn can_be_shown(c: ClientView, entities: &Entities, id: EntityId) -> bool {
    &&& entities@.contains_key(id)
    &&& entities@[id].kind != EntityKind::Marker
    &&& entities@[id].uuid != c.uuid
}

/// The chunks a client keeps are those it had and keeps.
pub proof fn lemma_retained_chunks(
    c: ClientView,
    world: World,
    now: Ticks,
    loaded: Seq<ChunkPos>,
    pos: ChunkPos,
)
    ensures
        retained_chunks(c, world, now, loaded).contains(pos) <==> loaded.contains(pos)
            && keeps_chunk(c, world, now, pos),
    decreases loaded.len(),
{
    if loaded.len() > 0 {
        lemma_retained_chunks(c, world, now, loaded.drop_last(), pos);
        lemma_last_contains(loaded, pos);
        lemma_push_contains(
            retained_chunks(c, world, now, loaded.drop_last()),
            loaded.last(),
            pos,
        );
    }
}

/// Of the chunks it had, a client is told to forget those that it does not
/// keep, and is handed none.
pub proof fn lemma_retain_stream(
    c: ClientView,
    world: World,
    min_y: i32,
    now: Ticks,
    loaded: Seq<ChunkPos>,
    p: S2cView,
    pos: ChunkPos,
)
    requires
        retain_stream(c, world, min_y, now, loaded).contains(p),
    ensures
        !hands_over(p, pos),
        !is_keepalive(p),
        !is_remove(p),
        !is_move(p),
        forgets(p, pos) ==> loaded.contains(pos) && !keeps_chunk(c, world, now, pos),
    decreases loaded.len(),
{
    if loaded.len() > 0 {
        let head = retain_stream(c, world, min_y, now, loaded.drop_last());
        let tail = retain_packets(c, world, min_y, now, loaded.last());
        lemma_concat_contains(head, tail, p);
        lemma_last_contains(loaded, pos);
        if head.contains(p) {
            lemma_retain_stream(c, world, min_y, now, loaded.drop_last(), p, pos);
        } else {
            let i = choose|i: int| 0 <= i < tail.len() && tail[i] == p;
            assert(tail[i] == p);
        }
    }
}

/// A client that keeps a chunk is sent every write of this tick to it.
pub proof fn lemma_retain_stream_has_changes(
    c: ClientView,
    world: World,
    min_y: i32,
    now: Ticks,
    loaded: Seq<ChunkPos>,
    pos: ChunkPos,
    i: int,
)
    requires
        loaded.contains(pos),
        keeps_chunk(c, world, now, pos),
        0 <= i < world.chunks.lookup(pos)->0.modified@.len(),
    ensures
        retain_stream(c, world, min_y, now, loaded).contains(
            world.chunks.lookup(pos)->0.block_change_stream(pos, min_y)[i],
        ),
    decreases loaded.len(),
{
    let changes = world.chunks.lookup(pos)->0.block_change_stream(pos, min_y);
    let head = retain_stream(c, world, min_y, now, loaded.drop_last());
    let tail = retain_packets(c, world, min_y, now, loaded.last());
    lemma_concat_contains(head, tail, changes[i]);
    lemma_last_contains(loaded, pos);
    if loaded.last() == pos {
        assert(tail[i] == changes[i]);
    } else {
        lemma_retain_stream_has_changes(c, world, min_y, now, loaded.drop_last(), pos, i);
    }
}

/// Every position of a client's view lies within its view distance.
pub proof fn lemma_view_cell_in_view(center: ChunkPos, d: u8, k: int, pos: ChunkPos)
    requires
        0 <= k < view_side(d) * view_side(d),
        view_cell(center, d, k) == Some(pos),
    ensures
        in_view_spec(center, pos, d as int),
{
    let side = view_side(d);
    assert(0 <= k % side < side);
    assert(0 <= k / side < side) by (nonlinear_arith)
        requires
            0 <= k < side * side,
            side > 0,
    ;
}

/// A client has what it had and what it was sent: the chunks it has after
/// the first `n` positions of its view are those it started with and those
/// that stand at one of these positions.
pub proof fn lemma_loaded_after(c: ClientView, world: World, start: Seq<ChunkPos>, n: nat, pos: ChunkPos)
    ensures
        start.contains(pos) ==> loaded_after(c, world, start, n).contains(pos),
        loaded_after(c, world, start, n).contains(pos) && !start.contains(pos) ==> {
            &&& world.chunks.lookup(pos) is Some
            &&& exists|k: int|
                0 <= k < n && #[trigger] view_cell(center_of(c), c.view_distance(), k) == Some(pos)
        },
    decreases n,
{
    if n > 0 {
        let before = loaded_after(c, world, start, (n - 1) as nat);
        lemma_loaded_after(c, world, start, (n - 1) as nat, pos);
        if loads_cell(c, world, before, n - 1) {
            lemma_push_contains(
                before,
                view_cell(center_of(c), c.view_distance(), n - 1)->0,
                pos,
            );
        }
        if loaded_after(c, world, start, n).contains(pos) && !start.contains(pos) {
            if before.contains(pos) {
                let k = choose|k: int|
                    0 <= k < n - 1 && #[trigger] view_cell(center_of(c), c.view_distance(), k)
                        == Some(pos);
                assert(view_cell(center_of(c), c.view_distance(), k) == Some(pos));
            } else {
                assert(view_cell(center_of(c), c.view_distance(), n - 1) == Some(pos));
            }
        }
    }
}

/// Of the chunks of its view, a client is handed those that it lacked and
/// that exist, and is told to forget none.
pub proof fn lemma_load_stream(
    c: ClientView,
    world: World,
    min_y: i32,
    start: Seq<ChunkPos>,
    n: nat,
    p: S2cView,
    pos: ChunkPos,
)
    requires
        load_stream(c, world, min_y, start, n).contains(p),
    ensures
        !forgets(p, pos),
        !is_keepalive(p),
        !is_remove(p),
        !is_move(p),
        hands_over(p, pos) ==> {
            &&& !start.contains(pos)
            &&& world.chunks.lookup(pos) is Some
            &&& loaded_after(c, world, start, n).contains(pos)
            &&& exists|k: int|
                0 <= k < n && #[trigger] view_cell(center_of(c), c.view_distance(), k) == Some(pos)
        },
    decreases n,
{
    if n > 0 {
        let before = loaded_after(c, world, start, (n - 1) as nat);
        let sent = load_stream(c, world, min_y, start, (n - 1) as nat);
        let cell = view_cell(center_of(c), c.view_distance(), n - 1);
        if loads_cell(c, world, before, n - 1) {
            let tail = load_packets(world, min_y, cell->0);
            lemma_concat_contains(sent, tail, p);
            lemma_push_contains(before, cell->0, pos);
            if sent.contains(p) {
                lemma_load_stream(c, world, min_y, start, (n - 1) as nat, p, pos);
                if hands_over(p, pos) {
                    let k = choose|k: int|
                        0 <= k < n - 1 && #[trigger] view_cell(center_of(c), c.view_distance(), k)
                            == Some(pos);
                    assert(view_cell(center_of(c), c.view_distance(), k) == Some(pos));
                }
            } else {
                let i = choose|i: int| 0 <= i < tail.len() && tail[i] == p;
                assert(tail[i] == p);
                if hands_over(p, pos) {
                    assert(i == 0);
                    assert(cell == Some(pos));
                    lemma_loaded_after(c, world, start, (n - 1) as nat, pos);
                }
            }
        } else {
            lemma_load_stream(c, world, min_y, start, (n - 1) as nat, p, pos);
            if hands_over(p, pos) {
                let k = choose|k: int|
                    0 <= k < n - 1 && #[trigger] view_cell(center_of(c), c.view_distance(), k)
                        == Some(pos);
                assert(view_cell(center_of(c), c.view_distance(), k) == Some(pos));
            }
        }
    }
}

/// In one update no client is both told to forget a chunk and handed it,
/// unless a chunk that it has and that is in its view was made anew this
/// tick: such a chunk is forgotten and sent again.
pub proof fn law_forget_or_load(
    s: Step,
    world: World,
    min_y: i32,
    now: Ticks,
    pos: ChunkPos,
    p: S2cView,
    q: S2cView,
)
    requires
        forall|at: ChunkPos|
            s.client.loaded_chunks.contains(at) && in_view_spec(
                center_of(s.client),
                at,
                s.client.view_distance() as int,
            ) ==> match #[trigger] world.chunks.lookup(at) {
                Some(chunk) => chunk.created_tick != now,
                None => true,
            },
        ({
            let kept = s.retain_chunks(world, min_y, now);
            let n = (view_side(s.client.view_distance()) * view_side(
                s.client.view_distance(),
            )) as nat;
            let sent = retain_stream(s.client, world, min_y, now, s.client.loaded_chunks)
                + load_stream(kept.client, world, min_y, kept.client.loaded_chunks, n);
            sent.contains(p) && sent.contains(q)
        }),
    ensures
        s.out.open ==> s.retain_chunks(world, min_y, now).load_chunks(world, min_y).out.packets
            == s.out.packets + (retain_stream(s.client, world, min_y, now, s.client.loaded_chunks)
            + load_stream(
            s.retain_chunks(world, min_y, now).client,
            world,
            min_y,
            s.retain_chunks(world, min_y, now).client.loaded_chunks,
            (view_side(s.client.view_distance()) * view_side(s.client.view_distance())) as nat,
        )),
        !(forgets(p, pos) && hands_over(q, pos)),
{
    let c = s.client;
    let kept = s.retain_chunks(world, min_y, now);
    let n = (view_side(c.view_distance()) * view_side(c.view_distance())) as nat;
    let first = retain_stream(c, world, min_y, now, c.loaded_chunks);
    let second = load_stream(kept.client, world, min_y, kept.client.loaded_chunks, n);
    if s.out.open {
        assert(kept.load_chunks(world, min_y).out.packets =~= s.out.packets + (first + second));
    }
    if forgets(p, pos) && hands_over(q, pos) {
        lemma_concat_contains(first, second, p);
        lemma_concat_contains(first, second, q);
        if second.contains(p) {
            lemma_load_stream(kept.client, world, min_y, kept.client.loaded_chunks, n, p, pos);
        }
        if first.contains(q) {
            lemma_retain_stream(c, world, min_y, now, c.loaded_chunks, q, pos);
        }
        lemma_retain_stream(c, world, min_y, now, c.loaded_chunks, p, pos);
        lemma_load_stream(kept.client, world, min_y, kept.client.loaded_chunks, n, q, pos);
        let k = choose|k: int|
            0 <= k < n && #[trigger] view_cell(
                center_of(kept.client),
                kept.client.view_distance(),
                k,
            ) == Some(pos);
        lemma_view_cell_in_view(center_of(c), c.view_distance(), k, pos);
        assert(world.chunks.lookup(pos) is Some);
    }
}

/// A write to a chunk reaches a client that has the chunk and keeps it as a
/// block update, and the chunk is not handed to it again.
pub proof fn law_changes_not_chunks(
    s: Step,
    world: World,
    min_y: i32,
    now: Ticks,
    pos: ChunkPos,
    i: int,
    q: S2cView,
)
    requires
        s.client.loaded_chunks.contains(pos),
        keeps_chunk(s.client, world, now, pos),
        0 <= i < world.chunks.lookup(pos)->0.modified@.len(),
        load_stream(
            s.retain_chunks(world, min_y, now).client,
            world,
            min_y,
            s.retain_chunks(world, min_y, now).client.loaded_chunks,
            (view_side(s.client.view_distance()) * view_side(s.client.view_distance())) as nat,
        ).contains(q),
    ensures
        retain_stream(s.client, world, min_y, now, s.client.loaded_chunks).contains(
            world.chunks.lookup(pos)->0.block_change_stream(pos, min_y)[i],
        ),
        !hands_over(q, pos),
        s.retain_chunks(world, min_y, now).load_chunks(world, min_y).client.loaded_chunks.contains(
            pos,
        ),
{
    let c = s.client;
    let kept = s.retain_chunks(world, min_y, now);
    let n = (view_side(c.view_distance()) * view_side(c.view_distance())) as nat;
    lemma_retain_stream_has_changes(c, world, min_y, now, c.loaded_chunks, pos, i);
    lemma_retained_chunks(c, world, now, c.loaded_chunks, pos);
    lemma_load_stream(kept.client, world, min_y, kept.client.loaded_chunks, n, q, pos);
    lemma_loaded_after(kept.client, world, kept.client.loaded_chunks, n, pos);
}

/// The entities a client goes on seeing are those it saw and keeps; those
/// it ceases to see are those it saw and does not keep.
pub proof fn lemma_retained_entities(
    c: ClientView,
    entities: &Entities,
    loaded: Seq<EntityId>,
    id: EntityId,
)
    ensures
        retained_entities(c, entities, loaded).contains(id) <==> loaded.contains(id)
            && keeps_entity(c, entities, id),
        unloaded_entities(c, entities, loaded).contains(id) <==> loaded.contains(id)
            && !keeps_entity(c, entities, id),
    decreases loaded.len(),
{
    if loaded.len() > 0 {
        lemma_retained_entities(c, entities, loaded.drop_last(), id);
        lemma_last_contains(loaded, id);
        lemma_push_contains(
            retained_entities(c, entities, loaded.drop_last()),
            loaded.last(),
            id,
        );
        lemma_push_contains(
            unloaded_entities(c, entities, loaded.drop_last()),
            loaded.last(),
            id,
        );
    }
}

/// The entities a client sees after it looked around are those it saw and
/// those near it that can be shown to it.
pub proof fn lemma_discovered(
    c: ClientView,
    entities: &Entities,
    start: Seq<EntityId>,
    near: Seq<EntityId>,
    id: EntityId,
)
    ensures
        discovered(c, entities, start, near).contains(id) <==> start.contains(id) || (
        near.contains(id) && can_be_shown(c, entities, id)),
    decreases near.len(),
{
    if near.len() > 0 {
        let before = discovered(c, entities, start, near.drop_last());
        lemma_discovered(c, entities, start, near.drop_last(), id);
        lemma_discovered(c, entities, start, near.drop_last(), near.last());
        lemma_last_contains(near, id);
        lemma_push_contains(before, near.last(), id);
    }
}

/// The entities that the one remove packet of an update names are those that
/// the client saw when the update began and does not see when it ends,
/// unless an entity that it ceases to see is shown to it anew in the same
/// update (its position is out of sight and its box is not).
pub proof fn law_removed_entities(s: Step, entities: &Entities, world: World, id: EntityId)
    requires
        forall|gone: EntityId|
            #![trigger can_be_shown(s.client, entities, gone)]
            unloaded_entities(s.client, entities, s.client.loaded_entities).contains(gone) ==> !(
            near_entities(s.client, world).contains(gone) && can_be_shown(
                s.client,
                entities,
                gone,
            )),
    ensures
        ({
            let removed = unloaded_entities(s.client, entities, s.client.loaded_entities);
            let end = s.update_entities(entities).self_metadata().discover(entities, world);
            &&& removed.contains(id) <==> s.client.loaded_entities.contains(id)
                && !end.client.loaded_entities.contains(id)
            &&& remove_packet(removed) == (if removed.len() == 0 {
                Seq::<S2cView>::empty()
            } else {
                seq![S2cView::RemoveEntities { entities: network_ids(removed) }]
            })
            &&& network_ids(removed).contains(id.network_id()) <== removed.contains(id)
        }),
{
    let c = s.client;
    let removed = unloaded_entities(c, entities, c.loaded_entities);
    let seen = s.update_entities(entities).self_metadata();
    lemma_retained_entities(c, entities, c.loaded_entities, id);
    lemma_discovered(
        seen.client,
        entities,
        seen.client.loaded_entities,
        near_entities(seen.client, world),
        id,
    );
    assert(near_entities(seen.client, world) == near_entities(c, world));
    assert(can_be_shown(seen.client, entities, id) == can_be_shown(c, entities, id));
    assert(seen.client.loaded_entities == retained_entities(c, entities, c.loaded_entities));
    let end = seen.discover(entities, world);
    assert(end.client.loaded_entities == discovered(
        seen.client,
        entities,
        seen.client.loaded_entities,
        near_entities(seen.client, world),
    ));
    if removed.contains(id) {
        let i = choose|i: int| 0 <= i < removed.len() && removed[i] == id;
        assert(network_ids(removed)[i] == id.network_id());
        assert(!(near_entities(c, world).contains(id) && can_be_shown(c, entities, id)));
    }
}

/// Which entities a client goes on seeing, ceases to see and comes to see
/// depends on the client only by where it is, how far it sees and whose it
/// is.
pub proof fn lemma_sight_depends_on_place(
    a: ClientView,
    b: ClientView,
    entities: &Entities,
    loaded: Seq<EntityId>,
    near: Seq<EntityId>,
)
    requires
        a.new_position == b.new_position,
        a.view_distance() == b.view_distance(),
        a.uuid == b.uuid,
    ensures
        retained_entities(a, entities, loaded) == retained_entities(b, entities, loaded),
        unloaded_entities(a, entities, loaded) == unloaded_entities(b, entities, loaded),
        discovered(a, entities, loaded, near) == discovered(b, entities, loaded, near),
    decreases loaded.len() + near.len(),
{
    if loaded.len() > 0 {
        lemma_sight_depends_on_place(a, b, entities, loaded.drop_last(), Seq::empty());
    }
    if near.len() > 0 {
        lemma_sight_depends_on_place(a, b, entities, loaded, near.drop_last());
    } else if loaded.len() > 0 {
        assert(retained_entities(a, entities, loaded) == retained_entities(b, entities, loaded));
    }
}

/// Which chunks a client keeps and is sent depends on the client only by
/// where it is and how far it sees.
pub proof fn lemma_chunks_depend_on_place(a: ClientView, b: ClientView, world: World, now: Ticks)
    requires
        same_outlook(a, b),
    ensures
        center_of(a) == center_of(b),
        a.view_distance() == b.view_distance(),
        forall|pos: ChunkPos| keeps_chunk(a, world, now, pos) == keeps_chunk(b, world, now, pos),
{
}

/// The outboxes of an update, stage by stage: each holds what the one
/// before held; the first stage adds what [`heralded`] says, the second
/// what is sent of the chunks, the fourth what [`populated`] says, and the
/// third and the last nothing that these say anything of.
pub proof fn lemma_tick_stages(
    s: Step,
    shared: &SharedServer,
    entities: &Entities,
    world: World,
    min_y: i32,
    fresh_id: i64,
)
    ensures
        ({
            let now = shared.current_tick;
            let h = s.herald(shared, world, fresh_id);
            let t = h.terrain(world, min_y, now);
            let e = s.tick_in(shared, entities, world, min_y, fresh_id);
            let kept = h.retain_chunks(world, min_y, now).client;
            let n = (view_side(h.client.view_distance()) * view_side(
                h.client.view_distance(),
            )) as nat;
            &&& heralded(
                s,
                h,
                world,
                s.client.created_tick != now && s.client.flags.spawn,
                shared.keepalive_due_spec(now),
                fresh_id,
            )
            &&& grown(s.out, h.out)
            &&& grown(h.out, t.out)
            &&& grown(t.out, e.out)
            &&& grown(s.out, e.out)
            &&& forall|i: int|
                t.out.packets.len() <= i < e.out.packets.len() ==> !about_chunks(
                    #[trigger] e.out.packets[i],
                ) && !is_keepalive(e.out.packets[i])
            &&& h.out.open ==> t.out.packets == h.out.packets + (retain_stream(
                h.client,
                world,
                min_y,
                now,
                h.client.loaded_chunks,
            ) + load_stream(kept, world, min_y, kept.loaded_chunks, n))
            &&& !h.out.open ==> t.out == h.out
            &&& forall|i: int|
                h.out.packets.len() <= i < t.out.packets.len() ==> !is_keepalive(
                    #[trigger] t.out.packets[i],
                ) && !is_remove(t.out.packets[i]) && !is_move(t.out.packets[i])
            &&& same_outlook(s.client, h.client)
            &&& same_outlook(s.client, e.client)
            &&& e.client.loaded_chunks == t.client.loaded_chunks
            &&& t.client.loaded_chunks == loaded_after(kept, world, kept.loaded_chunks, n)
            &&& e.client.old_position == s.client.new_position
            &&& e.client.flags.got_keepalive == h.client.flags.got_keepalive
            &&& e.client.last_keepalive_id == h.client.last_keepalive_id
        }),
{
    let now = shared.current_tick;
    let h = s.herald(shared, world, fresh_id);
    let t = h.terrain(world, min_y, now);
    let u = t.settle();
    let p = u.populate(entities, world);
    let e = p.conclude();
    let kept = h.retain_chunks(world, min_y, now).client;
    let n = (view_side(h.client.view_distance()) * view_side(h.client.view_distance())) as nat;
    let first = retain_stream(h.client, world, min_y, now, h.client.loaded_chunks);
    let second = load_stream(kept, world, min_y, kept.loaded_chunks, n);
    lemma_herald(s, shared, world, fresh_id);
    lemma_terrain(h, world, min_y, now);
    lemma_settle(t);
    lemma_populate(u, entities, world);
    lemma_conclude(p);
    lemma_grown_trans(t.out, u.out, p.out);
    lemma_grown_trans(t.out, p.out, e.out);
    lemma_grown_trans(s.out, h.out, t.out);
    lemma_grown_trans(s.out, t.out, e.out);
    lemma_grown_trans(u.out, p.out, e.out);
    assert forall|i: int| t.out.packets.len() <= i < e.out.packets.len() implies !about_chunks(
        #[trigger] e.out.packets[i],
    ) && !is_keepalive(e.out.packets[i]) by {
        if i < u.out.packets.len() {
            assert(e.out.packets[i] == u.out.packets[i]);
        } else if i < p.out.packets.len() {
            assert(e.out.packets[i] == p.out.packets[i]);
        }
    }
    assert forall|i: int| h.out.packets.len() <= i < t.out.packets.len() implies !is_keepalive(
        #[trigger] t.out.packets[i],
    ) && !is_remove(t.out.packets[i]) && !is_move(t.out.packets[i]) by {
        let q = t.out.packets[i];
        assert((first + second)[i - h.out.packets.len()] == q);
        lemma_concat_contains(first, second, q);
        if first.contains(q) {
            lemma_retain_stream(
                h.client,
                world,
                min_y,
                now,
                h.client.loaded_chunks,
                q,
                ChunkPos { x: 0, z: 0 },
            );
        } else {
            lemma_load_stream(kept, world, min_y, kept.loaded_chunks, n, q, ChunkPos { x: 0, z: 0 });
        }
    }
}

/// In one update a client is sent at most one keep-alive, and only where
/// one is due and the client has none outstanding; it carries the fresh
/// identifier and is outstanding when the update ends. An update never
/// settles an outstanding keep-alive. So a client never has two outstanding.
pub proof fn law_one_keepalive_in_tick(
    s: Step,
    shared: &SharedServer,
    entities: &Entities,
    world: World,
    min_y: i32,
    fresh_id: i64,
    i: int,
    j: int,
)
    requires
        s.out.packets.len() <= i < s.tick_in(
            shared,
            entities,
            world,
            min_y,
            fresh_id,
        ).out.packets.len(),
        s.out.packets.len() <= j < s.tick_in(
            shared,
            entities,
            world,
            min_y,
            fresh_id,
        ).out.packets.len(),
    ensures
        ({
            let e = s.tick_in(shared, entities, world, min_y, fresh_id);
            let due = shared.keepalive_due_spec(shared.current_tick);
            &&& is_keepalive(e.out.packets[i]) ==> {
                &&& due
                &&& s.client.flags.got_keepalive
                &&& e.out.packets[i] == S2cView::Plain(S2cPlayPacket::KeepAlive { id: fresh_id })
                &&& !e.client.flags.got_keepalive
                &&& e.client.last_keepalive_id == fresh_id
            }
            &&& is_keepalive(e.out.packets[i]) && is_keepalive(e.out.packets[j]) ==> i == j
            &&& e.client.flags.got_keepalive ==> s.client.flags.got_keepalive
            &&& !s.client.flags.got_keepalive ==> e.client.last_keepalive_id
                == s.client.last_keepalive_id
        }),
{
    let now = shared.current_tick;
    let h = s.herald(shared, world, fresh_id);
    let t = h.terrain(world, min_y, now);
    let e = s.tick_in(shared, entities, world, min_y, fresh_id);
    lemma_tick_stages(s, shared, entities, world, min_y, fresh_id);
    if is_keepalive(e.out.packets[i]) {
        assert(i < t.out.packets.len());
        assert(e.out.packets[i] == t.out.packets[i]);
        assert(i < h.out.packets.len());
        assert(t.out.packets[i] == h.out.packets[i]);
    }
    if is_keepalive(e.out.packets[j]) {
        assert(j < t.out.packets.len());
        assert(e.out.packets[j] == t.out.packets[j]);
        assert(j < h.out.packets.len());
        assert(t.out.packets[j] == h.out.packets[j]);
    }
}

/// A respawn that is pending when an update begins makes the first two
/// packets of the update: one that sends the client to the dummy dimension,
/// and right after it one that sends it to the dimension of its world.
pub proof fn law_respawn_bounces_in_tick(
    s: Step,
    shared: &SharedServer,
    entities: &Entities,
    world: World,
    min_y: i32,
    fresh_id: i64,
)
    requires
        s.client.created_tick != shared.current_tick,
        s.client.flags.spawn,
        s.out.open,
    ensures
        ({
            let e = s.tick_in(shared, entities, world, min_y, fresh_id);
            let n = s.out.packets.len() as int;
            &&& e.out.packets.len() >= n + 2
            &&& e.out.packets[n] == dummy_respawn_spec(s.client)
            &&& e.out.packets[n + 1] == respawn_spec(s.client, world)
        }),
{
    let h = s.herald(shared, world, fresh_id);
    let e = s.tick_in(shared, entities, world, min_y, fresh_id);
    let n = s.out.packets.len() as int;
    lemma_herald(s, shared, world, fresh_id);
    lemma_tick_stages(s, shared, entities, world, min_y, fresh_id);
    lemma_grown_trans(h.out, h.terrain(world, min_y, shared.current_tick).out, e.out);
    assert(e.out.packets[n] == h.out.packets[n]);
    assert(e.out.packets[n + 1] == h.out.packets[n + 1]);
}

/// Whether a respawn is pending for the client `c` on the tick `now`.
pub open spec fn respawns(c: ClientView, now: Ticks) -> bool {
    c.created_tick != now && c.flags.spawn
}

/// The entities that the remove packet of an update names: those that the
/// client saw when the update began and ceases to see; none where a respawn
/// is pending, for the client is then told of a new world.
pub open spec fn removed_in_tick(c: ClientView, entities: &Entities, now: Ticks) -> Seq<EntityId> {
    if respawns(c, now) {
        Seq::empty()
    } else {
        unloaded_entities(c, entities, c.loaded_entities)
    }
}

/// The entities that the remove packet of an update names are those that
/// the client saw when the update began and does not see when it ends,
/// unless an entity that the client ceases to see is shown to it anew in the
/// same update (its position is out of sight and its box is not), or a
/// respawn is pending and an entity that the client saw is not shown to it
/// anew.
pub proof fn law_removed_entities_in_tick(
    s: Step,
    shared: &SharedServer,
    entities: &Entities,
    world: World,
    min_y: i32,
    fresh_id: i64,
    id: EntityId,
)
    requires
        !respawns(s.client, shared.current_tick) ==> forall|gone: EntityId|
            #![trigger can_be_shown(s.client, entities, gone)]
            unloaded_entities(s.client, entities, s.client.loaded_entities).contains(gone) ==> !(
            near_entities(s.client, world).contains(gone) && can_be_shown(
                s.client,
                entities,
                gone,
            )),
        respawns(s.client, shared.current_tick) ==> forall|seen: EntityId|
            #![trigger s.client.loaded_entities.contains(seen)]
            s.client.loaded_entities.contains(seen) ==> near_entities(s.client, world).contains(
                seen,
            ) && can_be_shown(s.client, entities, seen),
    ensures
        removed_in_tick(s.client, entities, shared.current_tick).contains(id) <==> (
        s.client.loaded_entities.contains(id) && !s.tick_in(
            shared,
            entities,
            world,
            min_y,
            fresh_id,
        ).client.loaded_entities.contains(id)),
{
    let c = s.client;
    let now = shared.current_tick;
    let h = s.herald(shared, world, fresh_id);
    let t = h.terrain(world, min_y, now);
    let u = t.settle();
    let p = u.populate(entities, world);
    lemma_herald(s, shared, world, fresh_id);
    lemma_terrain(h, world, min_y, now);
    lemma_settle(t);
    lemma_populate(u, entities, world);
    lemma_conclude(p);
    let b = u.client;
    let start = b.loaded_entities;
    assert(same_outlook(c, b));
    assert(start == (if respawns(c, now) {
        Seq::<EntityId>::empty()
    } else {
        c.loaded_entities
    }));
    lemma_sight_depends_on_place(b, c, entities, start, Seq::empty());
    let seen = u.update_entities(entities).self_metadata();
    assert(near_entities(seen.client, world) == near_entities(c, world));
    lemma_sight_depends_on_place(
        seen.client,
        c,
        entities,
        seen.client.loaded_entities,
        near_entities(c, world),
    );
    lemma_retained_entities(c, entities, start, id);
    lemma_discovered(c, entities, retained_entities(c, entities, start), near_entities(c, world), id);
    if respawns(c, now) {
        if c.loaded_entities.contains(id) {
            assert(near_entities(c, world).contains(id) && can_be_shown(c, entities, id));
        }
    } else if unloaded_entities(c, entities, c.loaded_entities).contains(id) {
        assert(!(near_entities(c, world).contains(id) && can_be_shown(c, entities, id)));
    }
}

/// In one update no client is both told to forget a chunk and handed it,
/// unless a chunk that it has and that is in its view was made anew this
/// tick: such a chunk is forgotten and sent again. (Not even then where a
/// respawn is pending, for the client is told to forget nothing, or where
/// the client is disconnected before the update comes to its chunks.)
pub proof fn law_forget_or_load_in_tick(
    s: Step,
    shared: &SharedServer,
    entities: &Entities,
    world: World,
    min_y: i32,
    fresh_id: i64,
    pos: ChunkPos,
    i: int,
    j: int,
)
    requires
        (s.client.created_tick != shared.current_tick && s.client.flags.spawn) || !s.herald(
            shared,
            world,
            fresh_id,
        ).out.open || forall|at: ChunkPos|
            s.client.loaded_chunks.contains(at) && in_view_spec(
                center_of(s.client),
                at,
                s.client.view_distance() as int,
            ) ==> match #[trigger] world.chunks.lookup(at) {
                Some(chunk) => chunk.created_tick != shared.current_tick,
                None => true,
            },
        s.out.packets.len() <= i < s.tick_in(
            shared,
            entities,
            world,
            min_y,
            fresh_id,
        ).out.packets.len(),
        s.out.packets.len() <= j < s.tick_in(
            shared,
            entities,
            world,
            min_y,
            fresh_id,
        ).out.packets.len(),
    ensures
        ({
            let e = s.tick_in(shared, entities, world, min_y, fresh_id);
            !(forgets(e.out.packets[i], pos) && hands_over(e.out.packets[j], pos))
        }),
{
    let now = shared.current_tick;
    let h = s.herald(shared, world, fresh_id);
    let t = h.terrain(world, min_y, now);
    let e = s.tick_in(shared, entities, world, min_y, fresh_id);
    let kept = h.retain_chunks(world, min_y, now).client;
    let n = (view_side(h.client.view_distance()) * view_side(h.client.view_distance())) as nat;
    let sent = retain_stream(h.client, world, min_y, now, h.client.loaded_chunks) + load_stream(
        kept,
        world,
        min_y,
        kept.loaded_chunks,
        n,
    );
    lemma_tick_stages(s, shared, entities, world, min_y, fresh_id);
    lemma_herald(s, shared, world, fresh_id);
    lemma_chunks_depend_on_place(s.client, h.client, world, now);
    let p = e.out.packets[i];
    let q = e.out.packets[j];
    if forgets(p, pos) && hands_over(q, pos) {
        assert(about_chunks(p) && about_chunks(q));
        // Both came in the second stage.
        assert(h.out.packets.len() <= i < t.out.packets.len());
        assert(h.out.packets.len() <= j < t.out.packets.len());
        assert(e.out.packets[i] == t.out.packets[i]);
        assert(e.out.packets[j] == t.out.packets[j]);
        assert(h.out.open);
        assert(sent[i - h.out.packets.len()] == p);
        assert(sent[j - h.out.packets.len()] == q);
        law_forget_or_load(h, world, min_y, now, pos, p, q);
    }
}

/// A write to a chunk reaches a client that has the chunk and keeps it as a
/// block update, and the chunk is not handed to it again; unless a respawn
/// is pending, or the client is disconnected before the update comes to its
/// chunks.
pub proof fn law_changes_not_chunks_in_tick(
    s: Step,
    shared: &SharedServer,
    entities: &Entities,
    world: World,
    min_y: i32,
    fresh_id: i64,
    pos: ChunkPos,
    k: int,
    j: int,
)
    requires
        s.client.created_tick == shared.current_tick || !s.client.flags.spawn,
        s.herald(shared, world, fresh_id).out.open,
        s.client.loaded_chunks.contains(pos),
        keeps_chunk(s.client, world, shared.current_tick, pos),
        0 <= k < world.chunks.lookup(pos)->0.modified@.len(),
        s.out.packets.len() <= j < s.tick_in(
            shared,
            entities,
            world,
            min_y,
            fresh_id,
        ).out.packets.len(),
    ensures
        ({
            let e = s.tick_in(shared, entities, world, min_y, fresh_id);
            &&& exists|i: int|
                s.out.packets.len() <= i < e.out.packets.len() && #[trigger] e.out.packets[i]
                    == world.chunks.lookup(pos)->0.block_change_stream(pos, min_y)[k]
            &&& !hands_over(e.out.packets[j], pos)
            &&& e.client.loaded_chunks.contains(pos)
        }),
{
    let now = shared.current_tick;
    let h = s.herald(shared, world, fresh_id);
    let t = h.terrain(world, min_y, now);
    let e = s.tick_in(shared, entities, world, min_y, fresh_id);
    let kept = h.retain_chunks(world, min_y, now).client;
    let n = (view_side(h.client.view_distance()) * view_side(h.client.view_distance())) as nat;
    let first = retain_stream(h.client, world, min_y, now, h.client.loaded_chunks);
    let second = load_stream(kept, world, min_y, kept.loaded_chunks, n);
    let sent = first + second;
    let change = world.chunks.lookup(pos)->0.block_change_stream(pos, min_y)[k];
    lemma_tick_stages(s, shared, entities, world, min_y, fresh_id);
    lemma_herald(s, shared, world, fresh_id);
    lemma_chunks_depend_on_place(s.client, h.client, world, now);
    assert(h.client.loaded_chunks == s.client.loaded_chunks);
    // The block update is sent.
    lemma_retain_stream_has_changes(h.client, world, min_y, now, h.client.loaded_chunks, pos, k);
    let at = choose|at: int| 0 <= at < first.len() && first[at] == change;
    assert(sent[at] == change);
    let i = h.out.packets.len() + at;
    assert(t.out.packets[i] == change);
    assert(e.out.packets[i] == t.out.packets[i]);
    // The chunk is not.
    let q = e.out.packets[j];
    if hands_over(q, pos) {
        assert(about_chunks(q));
        assert(h.out.packets.len() <= j < t.out.packets.len());
        assert(e.out.packets[j] == t.out.packets[j]);
        assert(sent[j - h.out.packets.len()] == q);
        lemma_concat_contains(first, second, q);
        if first.contains(q) {
            lemma_retain_stream(h.client, world, min_y, now, h.client.loaded_chunks, q, pos);
        } else {
            lemma_retained_chunks(h.client, world, now, h.client.loaded_chunks, pos);
            lemma_load_stream(kept, world, min_y, kept.loaded_chunks, n, q, pos);
        }
    }
    lemma_retained_chunks(h.client, world, now, h.client.loaded_chunks, pos);
    lemma_loaded_after(kept, world, kept.loaded_chunks, n, pos);
}

/// In one update a client is sent at most one packet that removes
/// entities; it names the entities of [`removed_in_tick`], in the order the
/// client came to see them, and it is sent wherever there are such entities
/// and the client is not disconnected on the way.
pub proof fn law_one_remove_packet_in_tick(
    s: Step,
    shared: &SharedServer,
    entities: &Entities,
    world: World,
    min_y: i32,
    fresh_id: i64,
    i: int,
    j: int,
)
    requires
        s.out.packets.len() <= i < s.tick_in(
            shared,
            entities,
            world,
            min_y,
            fresh_id,
        ).out.packets.len(),
        s.out.packets.len() <= j < s.tick_in(
            shared,
            entities,
            world,
            min_y,
            fresh_id,
        ).out.packets.len(),
    ensures
        ({
            let e = s.tick_in(shared, entities, world, min_y, fresh_id);
            let removed = removed_in_tick(s.client, entities, shared.current_tick);
            &&& is_remove(e.out.packets[i]) ==> removed.len() > 0 && e.out.packets[i]
                == (S2cView::RemoveEntities { entities: network_ids(removed) })
            &&& is_remove(e.out.packets[i]) && is_remove(e.out.packets[j]) ==> i == j
            &&& e.out.open && removed.len() > 0 ==> exists|k: int|
                s.out.packets.len() <= k < e.out.packets.len() && #[trigger] e.out.packets[k]
                    == (S2cView::RemoveEntities { entities: network_ids(removed) })
        }),
{
    let c = s.client;
    let now = shared.current_tick;
    let h = s.herald(shared, world, fresh_id);
    let t = h.terrain(world, min_y, now);
    let u = t.settle();
    let p = u.populate(entities, world);
    let e = p.conclude();
    let removed = removed_in_tick(c, entities, now);
    lemma_tick_stages(s, shared, entities, world, min_y, fresh_id);
    lemma_terrain(h, world, min_y, now);
    lemma_settle(t);
    lemma_populate(u, entities, world);
    lemma_conclude(p);
    lemma_grown_trans(s.out, h.out, t.out);
    lemma_grown_trans(s.out, t.out, u.out);
    lemma_grown_trans(h.out, t.out, u.out);
    lemma_grown_trans(u.out, p.out, e.out);
    assert(same_outlook(c, u.client));
    lemma_sight_depends_on_place(u.client, c, entities, u.client.loaded_entities, Seq::empty());
    assert(unloaded_entities(u.client, entities, u.client.loaded_entities) == removed);
    if is_remove(e.out.packets[i]) {
        lemma_remove_is_of_the_fourth_stage(s, h, t, u, p, e, i);
    }
    if is_remove(e.out.packets[j]) {
        lemma_remove_is_of_the_fourth_stage(s, h, t, u, p, e, j);
    }
    if e.out.open && removed.len() > 0 {
        let k = choose|k: int|
            u.out.packets.len() <= k < p.out.packets.len() && #[trigger] p.out.packets[k]
                == remove_packet(removed)[0];
        assert(e.out.packets[k] == p.out.packets[k]);
    }
}

/// A packet of an update that removes entities came in the fourth stage.
proof fn lemma_remove_is_of_the_fourth_stage(
    s: Step,
    h: Step,
    t: Step,
    u: Step,
    p: Step,
    e: Step,
    i: int,
)
    requires
        grown(s.out, h.out),
        grown(h.out, t.out),
        grown(t.out, u.out),
        grown(u.out, p.out),
        grown(p.out, e.out),
        forall|k: int|
            s.out.packets.len() <= k < h.out.packets.len() ==> !is_remove(
                #[trigger] h.out.packets[k],
            ),
        forall|k: int|
            h.out.packets.len() <= k < t.out.packets.len() ==> !is_remove(
                #[trigger] t.out.packets[k],
            ),
        no_marks_since(t.out, u.out),
        no_marks_since(p.out, e.out),
        s.out.packets.len() <= i < e.out.packets.len(),
        is_remove(e.out.packets[i]),
    ensures
        u.out.packets.len() <= i < p.out.packets.len(),
        e.out.packets[i] == p.out.packets[i],
{
    if i < p.out.packets.len() {
        assert(e.out.packets[i] == p.out.packets[i]);
        if i < u.out.packets.len() {
            assert(p.out.packets[i] == u.out.packets[i]);
            if i < t.out.packets.len() {
                assert(u.out.packets[i] == t.out.packets[i]);
                if i < h.out.packets.len() {
                    assert(t.out.packets[i] == h.out.packets[i]);
                }
            }
        }
    }
}

/// Whether the chunks the client has and the entities it sees are sets: none
/// stands twice.
pub open spec fn holds_sets(c: ClientView) -> bool {
    c.loaded_chunks.no_duplicates() && c.loaded_entities.no_duplicates()
}

/// What is kept of a list without duplicates has none.
pub proof fn lemma_retained_no_duplicates(
    c: ClientView,
    entities: &Entities,
    world: World,
    now: Ticks,
    chunks: Seq<ChunkPos>,
    seen: Seq<EntityId>,
)
    requires
        chunks.no_duplicates(),
        seen.no_duplicates(),
    ensures
        retained_chunks(c, world, now, chunks).no_duplicates(),
        retained_entities(c, entities, seen).no_duplicates(),
    decreases chunks.len() + seen.len(),
{
    if chunks.len() > 0 {
        let rest = chunks.drop_last();
        assert forall|i: int, j: int| 0 <= i < j < rest.len() implies rest[i] != rest[j] by {
            assert(chunks[i] != chunks[j]);
        }
        lemma_retained_no_duplicates(c, entities, world, now, rest, Seq::empty());
        lemma_retained_chunks(c, world, now, rest, chunks.last());
        if rest.contains(chunks.last()) {
            let i = choose|i: int| 0 <= i < rest.len() && rest[i] == chunks.last();
            assert(chunks[i] == chunks[chunks.len() - 1]);
        }
        lemma_push_no_duplicates(retained_chunks(c, world, now, rest), chunks.last());
    }
    if seen.len() > 0 {
        let rest = seen.drop_last();
        assert forall|i: int, j: int| 0 <= i < j < rest.len() implies rest[i] != rest[j] by {
            assert(seen[i] != seen[j]);
        }
        lemma_retained_no_duplicates(c, entities, world, now, Seq::empty(), rest);
        lemma_retained_entities(c, entities, rest, seen.last());
        if rest.contains(seen.last()) {
            let i = choose|i: int| 0 <= i < rest.len() && rest[i] == seen.last();
            assert(seen[i] == seen[seen.len() - 1]);
        }
        lemma_push_no_duplicates(retained_entities(c, entities, rest), seen.last());
    }
}

/// What a client has after it was sent the chunks it lacked, and sees after
/// it was shown the entities it did not see, holds nothing twice if it held
/// nothing twice before.
pub proof fn lemma_grown_no_duplicates(
    c: ClientView,
    entities: &Entities,
    world: World,
    chunks: Seq<ChunkPos>,
    n: nat,
    seen: Seq<EntityId>,
    near: Seq<EntityId>,
)
    requires
        chunks.no_duplicates(),
        seen.no_duplicates(),
    ensures
        loaded_after(c, world, chunks, n).no_duplicates(),
        discovered(c, entities, seen, near).no_duplicates(),
    decreases n + near.len(),
{
    if n > 0 {
        lemma_grown_no_duplicates(c, entities, world, chunks, (n - 1) as nat, seen, Seq::empty());
        let before = loaded_after(c, world, chunks, (n - 1) as nat);
        if loads_cell(c, world, before, n - 1) {
            lemma_push_no_duplicates(before, view_cell(center_of(c), c.view_distance(), n - 1)->0);
        }
    }
    if near.len() > 0 {
        lemma_grown_no_duplicates(c, entities, world, chunks, 0, seen, near.drop_last());
        let before = discovered(c, entities, seen, near.drop_last());
        if admits_entity(c, entities, before, near.last()) {
            lemma_push_no_duplicates(before, near.last());
        }
    }
}

/// The chunks a client has and the entities it sees are sets: a new client
/// has none of either, and an update leaves no chunk and no entity twice
/// where none stood twice.
pub proof fn law_loaded_sets(
    s: Step,
    shared: &SharedServer,
    entities: &Entities,
    world: World,
    min_y: i32,
    fresh_id: i64,
    ncd: NewClientData,
)
    ensures
        holds_sets(new_client_view(shared.current_tick, ncd)),
        holds_sets(s.client) ==> holds_sets(
            s.tick_in(shared, entities, world, min_y, fresh_id).client,
        ),
{
    let c = s.client;
    let now = shared.current_tick;
    let h = s.herald(shared, world, fresh_id);
    let t = h.terrain(world, min_y, now);
    let u = t.settle();
    let p = u.populate(entities, world);
    if holds_sets(c) {
        lemma_herald(s, shared, world, fresh_id);
        lemma_terrain(h, world, min_y, now);
        lemma_settle(t);
        lemma_populate(u, entities, world);
        lemma_conclude(p);
        let hc = h.client;
        assert(holds_sets(hc));
        lemma_retained_no_duplicates(hc, entities, world, now, hc.loaded_chunks, Seq::empty());
        let kept = h.retain_chunks(world, min_y, now).client;
        let n = (view_side(hc.view_distance()) * view_side(hc.view_distance())) as nat;
        lemma_grown_no_duplicates(
            kept,
            entities,
            world,
            kept.loaded_chunks,
            n,
            Seq::empty(),
            Seq::empty(),
        );
        let uc = u.client;
        lemma_retained_no_duplicates(uc, entities, world, now, Seq::empty(), uc.loaded_entities);
        let seen = u.update_entities(entities).self_metadata();
        lemma_grown_no_duplicates(
            seen.client,
            entities,
            world,
            Seq::empty(),
            0,
            seen.client.loaded_entities,
            near_entities(seen.client, world),
        );
    }
}

/// Whether the packets `run` stand in `stream` from the index `at` on, one
/// after the other.
pub open spec fn has_run(stream: Seq<S2cView>, at: int, run: Seq<S2cView>) -> bool {
    &&& 0 <= at
    &&& at + run.len() <= stream.len()
    &&& forall|i: int| 0 <= i < run.len() ==> #[trigger] stream[at + i] == run[i]
}

/// A move of an entity by less than eight blocks on every axis is told by
/// one packet, a relative one, and by no teleport: the move with the
/// rotation where yaw or pitch changed too, the move alone otherwise. What
/// the packet carries, widened again and added to the old position, is the
/// new position.
pub proof fn law_short_move_is_one_relative_packet(e: Entity, id: EntityId)
    requires
        e.position != e.old_position,
        e.position.minus(e.old_position).max_abs() < MAX_RELATIVE_MOVE,
    ensures
        ({
            let delta = e.position.minus(e.old_position).to_delta();
            let yaw = crate::fixed::byte_angle_spec(e.yaw) as u8;
            let pitch = crate::fixed::byte_angle_spec(e.pitch) as u8;
            &&& movement_packets(e, id) == (if e.yaw_or_pitch_modified {
                seq![
                    S2cView::Plain(
                        S2cPlayPacket::MoveEntityPositionAndRotation {
                            entity_id: id.network_id(),
                            delta,
                            yaw,
                            pitch,
                            on_ground: e.on_ground,
                        },
                    ),
                ]
            } else {
                seq![
                    S2cView::Plain(
                        S2cPlayPacket::MoveEntityPosition {
                            entity_id: id.network_id(),
                            delta,
                            on_ground: e.on_ground,
                        },
                    ),
                ]
            })
            &&& e.old_position.x + delta.widen().x == e.position.x
            &&& e.old_position.y + delta.widen().y == e.position.y
            &&& e.old_position.z + delta.widen().z == e.position.z
        }),
{
    let delta = e.position.minus(e.old_position).to_delta();
    let yaw = crate::fixed::byte_angle_spec(e.yaw) as u8;
    let pitch = crate::fixed::byte_angle_spec(e.pitch) as u8;
    let expected = if e.yaw_or_pitch_modified {
        seq![
            S2cView::Plain(
                S2cPlayPacket::MoveEntityPositionAndRotation {
                    entity_id: id.network_id(),
                    delta,
                    yaw,
                    pitch,
                    on_ground: e.on_ground,
                },
            ),
        ]
    } else {
        seq![
            S2cView::Plain(
                S2cPlayPacket::MoveEntityPosition {
                    entity_id: id.network_id(),
                    delta,
                    on_ground: e.on_ground,
                },
            ),
        ]
    };
    assert(movement_packets(e, id) =~= expected);
}

/// What is sent of an entity holds what tells of its move, as one run,
/// right after its metadata if any was written.
pub proof fn lemma_entity_packets_hold_the_move(e: Entity, id: EntityId)
    ensures
        has_run(entity_packets(e, id), move_at(e, id), movement_packets(e, id)),
{
}

/// What is sent of the entities a client sees holds, as one run, what is
/// sent of each that it goes on seeing.
pub proof fn lemma_entities_stream_has_run(
    c: ClientView,
    entities: &Entities,
    loaded: Seq<EntityId>,
    id: EntityId,
)
    requires
        loaded.contains(id),
        keeps_entity(c, entities, id),
    ensures
        exists|at: int| #[trigger]
            has_run(
                entities_stream(c, entities, loaded),
                at,
                entity_packets(entities@[id], id),
            ),
    decreases loaded.len(),
{
    let run = entity_packets(entities@[id], id);
    let stream = entities_stream(c, entities, loaded);
    let head = entities_stream(c, entities, loaded.drop_last());
    lemma_last_contains(loaded, id);
    if loaded.last() == id {
        assert(stream == head + run);
        assert(has_run(stream, head.len() as int, run)) by {
            assert forall|i: int| 0 <= i < run.len() implies #[trigger] stream[head.len() + i]
                == run[i] by {}
        }
    } else {
        lemma_entities_stream_has_run(c, entities, loaded.drop_last(), id);
        let at = choose|at: int| #[trigger] has_run(head, at, run);
        assert(has_run(stream, at, run)) by {
            assert forall|i: int| 0 <= i < run.len() implies #[trigger] stream[at + i]
                == run[i] by {
                assert(stream[at + i] == head[at + i]);
            }
        }
    }
}

/// What is sent of an entity in an update: of every entity that the client
/// saw when the update began and goes on seeing, the update's outbox holds
/// what [`entity_packets`] says, as one run; unless a respawn is pending
/// (the entity is then shown anew) or the client is disconnected on the way
/// (keep-alive unanswered, teleports uncountable). With
/// [`law_short_move_is_one_relative_packet`]: a short move of such an entity
/// reaches the client as one relative packet that carries it exactly.
pub proof fn law_entity_packets_in_tick(
    s: Step,
    shared: &SharedServer,
    entities: &Entities,
    world: World,
    min_y: i32,
    fresh_id: i64,
    id: EntityId,
)
    requires
        !respawns(s.client, shared.current_tick),
        s.herald(shared, world, fresh_id).out.open,
        s.client.loaded_entities.contains(id),
        keeps_entity(s.client, entities, id),
    ensures
        exists|at: int|
            s.out.packets.len() <= at && #[trigger] has_run(
                s.tick_in(shared, entities, world, min_y, fresh_id).out.packets,
                at,
                entity_packets(entities@[id], id),
            ),
        s.tick_in(shared, entities, world, min_y, fresh_id).client.loaded_entities.contains(id),
{
    let c = s.client;
    let now = shared.current_tick;
    let h = s.herald(shared, world, fresh_id);
    let t = h.terrain(world, min_y, now);
    let u = t.settle();
    let p = u.populate(entities, world);
    let e = p.conclude();
    let run = entity_packets(entities@[id], id);
    lemma_herald(s, shared, world, fresh_id);
    lemma_terrain(h, world, min_y, now);
    lemma_settle(t);
    lemma_populate(u, entities, world);
    lemma_conclude(p);
    lemma_grown_trans(s.out, h.out, t.out);
    lemma_grown_trans(s.out, t.out, u.out);
    let uc = u.client;
    assert(same_outlook(c, uc));
    assert(uc.loaded_entities == c.loaded_entities);
    assert(keeps_entity(uc, entities, id));
    assert(u.out.open);
    let stream = entities_stream(uc, entities, uc.loaded_entities);
    lemma_entities_stream_has_run(uc, entities, uc.loaded_entities, id);
    let a = choose|a: int| #[trigger] has_run(stream, a, run);
    // The update of the entities is the first thing of the fourth stage.
    let s1 = u.update_entities(entities);
    crate::client::stages::lemma_populate_begins(u, entities, world);
    lemma_grown_trans(s1.out, p.out, e.out);
    let at = u.out.packets.len() + a;
    assert(has_run(e.out.packets, at, run)) by {
        assert forall|i: int| 0 <= i < run.len() implies #[trigger] e.out.packets[at + i]
            == run[i] by {
            assert(s1.out.packets[at + i] == stream[a + i]);
            assert(e.out.packets[at + i] == s1.out.packets[at + i]);
        }
    }
    // And the client goes on seeing the entity.
    lemma_retained_entities(uc, entities, uc.loaded_entities, id);
    let seen = s1.self_metadata();
    lemma_discovered(
        seen.client,
        entities,
        seen.client.loaded_entities,
        near_entities(seen.client, world),
        id,
    );
}

/// A client whose chunks are a set is told to forget none of them twice.
pub proof fn lemma_forgets_once(
    c: ClientView,
    world: World,
    min_y: i32,
    now: Ticks,
    loaded: Seq<ChunkPos>,
    pos: ChunkPos,
    i: int,
    j: int,
)
    requires
        loaded.no_duplicates(),
        0 <= i < j < retain_stream(c, world, min_y, now, loaded).len(),
    ensures
        !(forgets(retain_stream(c, world, min_y, now, loaded)[i], pos) && forgets(
            retain_stream(c, world, min_y, now, loaded)[j],
            pos,
        )),
    decreases loaded.len(),
{
    let stream = retain_stream(c, world, min_y, now, loaded);
    if loaded.len() > 0 && forgets(stream[i], pos) && forgets(stream[j], pos) {
        let rest = loaded.drop_last();
        let head = retain_stream(c, world, min_y, now, rest);
        let tail = retain_packets(c, world, min_y, now, loaded.last());
        assert forall|a: int, b: int| 0 <= a < b < rest.len() implies rest[a] != rest[b] by {
            assert(loaded[a] != loaded[b]);
        }
        if j < head.len() {
            assert(stream[i] == head[i] && stream[j] == head[j]);
            lemma_forgets_once(c, world, min_y, now, rest, pos, i, j);
        } else {
            assert(stream[j] == tail[j - head.len()]);
            assert(loaded.last() == pos);
            assert(tail.len() == 1);
            assert(i < head.len());
            assert(stream[i] == head[i]);
            assert(head.contains(head[i]));
            lemma_retain_stream(c, world, min_y, now, rest, head[i], pos);
            let k = choose|k: int| 0 <= k < rest.len() && rest[k] == pos;
            assert(loaded[k] == loaded[loaded.len() - 1]);
        }
    }
}

/// A client is handed no chunk of its view twice.
pub proof fn lemma_hands_over_once(
    c: ClientView,
    world: World,
    min_y: i32,
    start: Seq<ChunkPos>,
    n: nat,
    pos: ChunkPos,
    i: int,
    j: int,
)
    requires
        0 <= i < j < load_stream(c, world, min_y, start, n).len(),
    ensures
        !(hands_over(load_stream(c, world, min_y, start, n)[i], pos) && hands_over(
            load_stream(c, world, min_y, start, n)[j],
            pos,
        )),
    decreases n,
{
    let stream = load_stream(c, world, min_y, start, n);
    if n > 0 && hands_over(stream[i], pos) && hands_over(stream[j], pos) {
        let before = loaded_after(c, world, start, (n - 1) as nat);
        let sent = load_stream(c, world, min_y, start, (n - 1) as nat);
        if j < sent.len() {
            if loads_cell(c, world, before, n - 1) {
                assert(stream[i] == sent[i] && stream[j] == sent[j]);
            }
            lemma_hands_over_once(c, world, min_y, start, (n - 1) as nat, pos, i, j);
        } else {
            let cell = view_cell(center_of(c), c.view_distance(), n - 1)->0;
            let tail = load_packets(world, min_y, cell);
            assert(stream[j] == tail[j - sent.len()]);
            assert(j - sent.len() == 0);
            assert(cell == pos);
            assert(stream[i] == sent[i]);
            assert(sent.contains(sent[i]));
            lemma_load_stream(c, world, min_y, start, (n - 1) as nat, sent[i], pos);
        }
    }
}

/// In one update a client whose chunks are a set is told to forget no chunk
/// twice and is handed no chunk twice.
pub proof fn law_each_chunk_once_in_tick(
    s: Step,
    shared: &SharedServer,
    entities: &Entities,
    world: World,
    min_y: i32,
    fresh_id: i64,
    pos: ChunkPos,
    i: int,
    j: int,
)
    requires
        s.client.loaded_chunks.no_duplicates(),
        s.out.packets.len() <= i < j < s.tick_in(
            shared,
            entities,
            world,
            min_y,
            fresh_id,
        ).out.packets.len(),
    ensures
        ({
            let e = s.tick_in(shared, entities, world, min_y, fresh_id);
            &&& !(forgets(e.out.packets[i], pos) && forgets(e.out.packets[j], pos))
            &&& !(hands_over(e.out.packets[i], pos) && hands_over(e.out.packets[j], pos))
        }),
{
    let now = shared.current_tick;
    let h = s.herald(shared, world, fresh_id);
    let t = h.terrain(world, min_y, now);
    let e = s.tick_in(shared, entities, world, min_y, fresh_id);
    let kept = h.retain_chunks(world, min_y, now).client;
    let n = (view_side(h.client.view_distance()) * view_side(h.client.view_distance())) as nat;
    let first = retain_stream(h.client, world, min_y, now, h.client.loaded_chunks);
    let second = load_stream(kept, world, min_y, kept.loaded_chunks, n);
    let sent = first + second;
    lemma_tick_stages(s, shared, entities, world, min_y, fresh_id);
    lemma_herald(s, shared, world, fresh_id);
    let p = e.out.packets[i];
    let q = e.out.packets[j];
    if (forgets(p, pos) && forgets(q, pos)) || (hands_over(p, pos) && hands_over(q, pos)) {
        assert(about_chunks(p) && about_chunks(q));
        // Both came in the second stage.
        assert(h.out.packets.len() <= i < t.out.packets.len());
        assert(h.out.packets.len() <= j < t.out.packets.len());
        assert(e.out.packets[i] == t.out.packets[i]);
        assert(e.out.packets[j] == t.out.packets[j]);
        assert(h.out.open);
        let a = i - h.out.packets.len();
        let b = j - h.out.packets.len();
        assert(sent[a] == p && sent[b] == q);
        if forgets(p, pos) {
            // Of what is handed over nothing is a word to forget.
            if a >= first.len() {
                assert(second[a - first.len()] == p);
                assert(second.contains(p));
                lemma_load_stream(kept, world, min_y, kept.loaded_chunks, n, p, pos);
            }
            if b >= first.len() {
                assert(second[b - first.len()] == q);
                assert(second.contains(q));
                lemma_load_stream(kept, world, min_y, kept.loaded_chunks, n, q, pos);
            }
            assert(first[a] == p && first[b] == q);
            lemma_forgets_once(h.client, world, min_y, now, h.client.loaded_chunks, pos, a, b);
        } else {
            // Of what is said of the chunks that the client has nothing
            // hands one over.
            if a < first.len() {
                assert(first[a] == p);
                assert(first.contains(p));
                lemma_retain_stream(h.client, world, min_y, now, h.client.loaded_chunks, p, pos);
            }
            if b < first.len() {
                assert(first[b] == q);
                assert(first.contains(q));
                lemma_retain_stream(h.client, world, min_y, now, h.client.loaded_chunks, q, pos);
            }
            assert(second[a - first.len()] == p && second[b - first.len()] == q);
            lemma_hands_over_once(
                kept,
                world,
                min_y,
                kept.loaded_chunks,
                n,
                pos,
                a - first.len(),
                b - first.len(),
            );
        }
    }
}

/// Whether the packet `p` tells of a move of the entity with the network
/// identifier `nid`.
pub open spec fn moves(p: S2cView, nid: i32) -> bool {
    match p {
        S2cView::Plain(S2cPlayPacket::MoveEntityPosition { entity_id, delta, on_ground }) => {
            entity_id == nid
        },
        S2cView::Plain(
            S2cPlayPacket::MoveEntityPositionAndRotation { entity_id, delta, yaw, pitch, on_ground },
        ) => entity_id == nid,
        S2cView::Plain(
            S2cPlayPacket::TeleportEntity { entity_id, position, yaw, pitch, on_ground },
        ) => entity_id == nid,
        _ => false,
    }
}

/// Where, in what is sent of the entities `loaded`, what is sent of the
/// entity `id` begins.
pub open spec fn run_at(c: ClientView, entities: &Entities, loaded: Seq<EntityId>, id: EntityId) -> int
    decreases loaded.len(),
{
    if loaded.len() == 0 {
        0
    } else if loaded.last() == id {
        entities_stream(c, entities, loaded.drop_last()).len() as int
    } else {
        run_at(c, entities, loaded.drop_last(), id)
    }
}

/// Where, in what is sent of the entity `e`, what tells of its move begins:
/// behind its metadata, if any was written.
pub open spec fn move_at(e: Entity, id: EntityId) -> int {
    optional(crate::entity::metadata_packet_spec(id.network_id(), e.data.updated@)).len() as int
}

/// Of what is sent of an entity, only what tells of its move tells of a
/// move, and of none but its own.
pub proof fn lemma_moves_in_entity_packets(e: Entity, id: EntityId, m: int)
    requires
        0 <= m < entity_packets(e, id).len(),
        is_move(entity_packets(e, id)[m]),
    ensures
        moves(entity_packets(e, id)[m], id.network_id()),
        move_at(e, id) <= m < move_at(e, id) + movement_packets(e, id).len(),
        entity_packets(e, id)[m] == movement_packets(e, id)[m - move_at(e, id)],
{
    let nid = id.network_id();
    let told = optional(crate::entity::metadata_packet_spec(nid, e.data.updated@));
    let moved = movement_packets(e, id);
    let velocity = if e.velocity_modified {
        seq![
            S2cView::Plain(
                S2cPlayPacket::SetEntityMotion {
                    entity_id: nid,
                    velocity: e.velocity.to_packet_velocity(),
                },
            ),
        ]
    } else {
        Seq::empty()
    };
    let head = if e.head_yaw_modified {
        seq![
            S2cView::Plain(
                S2cPlayPacket::RotateHead {
                    entity_id: nid,
                    head_yaw: crate::fixed::byte_angle_spec(e.head_yaw) as u8,
                },
            ),
        ]
    } else {
        Seq::empty()
    };
    let events = crate::client::egress::event_stream(nid, e.data.event_codes@);
    let all = entity_packets(e, id);
    assert(all == told + moved + velocity + head + events);
    if m < told.len() {
        assert(all[m] == told[m]);
    } else if m < told.len() + moved.len() {
        assert(all[m] == moved[m - told.len()]);
    } else if m < told.len() + moved.len() + velocity.len() {
        assert(all[m] == velocity[m - told.len() - moved.len()]);
    } else if m < told.len() + moved.len() + velocity.len() + head.len() {
        assert(all[m] == head[m - told.len() - moved.len() - velocity.len()]);
    } else {
        assert(all[m] == events[m - told.len() - moved.len() - velocity.len() - head.len()]);
    }
}

/// Of what is sent of the entities that a client sees, what tells of a move
/// of a live entity stands in what is sent of that entity, which the client
/// saw and goes on seeing.
pub proof fn lemma_moves_in_entities_stream(
    c: ClientView,
    entities: &Entities,
    loaded: Seq<EntityId>,
    id: EntityId,
    m: int,
)
    requires
        entities.wf(),
        loaded.no_duplicates(),
        entities@.contains_key(id),
        0 <= m < entities_stream(c, entities, loaded).len(),
        moves(entities_stream(c, entities, loaded)[m], id.network_id()),
    ensures
        loaded.contains(id),
        keeps_entity(c, entities, id),
        has_run(
            entities_stream(c, entities, loaded),
            run_at(c, entities, loaded, id),
            entity_packets(entities@[id], id),
        ),
        run_at(c, entities, loaded, id) <= m < run_at(c, entities, loaded, id) + entity_packets(
            entities@[id],
            id,
        ).len(),
    decreases loaded.len(),
{
    let stream = entities_stream(c, entities, loaded);
    let run = entity_packets(entities@[id], id);
    if loaded.len() > 0 {
        let rest = loaded.drop_last();
        let last = loaded.last();
        let head = entities_stream(c, entities, rest);
        assert forall|a: int, b: int| 0 <= a < b < rest.len() implies rest[a] != rest[b] by {
            assert(loaded[a] != loaded[b]);
        }
        lemma_last_contains(loaded, id);
        if m < head.len() {
            assert(stream[m] == head[m]);
            lemma_moves_in_entities_stream(c, entities, rest, id, m);
            // The client saw the entity once, and before the last.
            let k = choose|k: int| 0 <= k < rest.len() && rest[k] == id;
            assert(loaded[k] != loaded[loaded.len() - 1]);
            let at = run_at(c, entities, rest, id);
            assert(has_run(stream, at, run)) by {
                assert forall|i: int| 0 <= i < run.len() implies #[trigger] stream[at + i]
                    == run[i] by {
                    assert(stream[at + i] == head[at + i]);
                }
            }
        } else {
            // The packet is of the last entity, which is live, and so is
            // the entity asked for.
            assert(keeps_entity(c, entities, last));
            let tail = entity_packets(entities@[last], last);
            assert(stream[m] == tail[m - head.len()]);
            lemma_moves_in_entity_packets(entities@[last], last, m - head.len());
            entities.lemma_one_entity_per_network_id(last, id);
            assert(has_run(stream, head.len() as int, run)) by {
                assert forall|i: int| 0 <= i < run.len() implies #[trigger] stream[head.len() + i]
                    == run[i] by {}
            }
        }
    }
}

/// Where, in the outbox of an update, what is sent of the entity `id` as
/// one that the client saw before begins: behind what the first three
/// stages sent, at its place among the entities that the client sees.
pub open spec fn run_in_tick(
    s: Step,
    shared: &SharedServer,
    entities: &Entities,
    world: World,
    min_y: i32,
    fresh_id: i64,
    id: EntityId,
) -> int {
    let u = s.herald(shared, world, fresh_id).terrain(world, min_y, shared.current_tick).settle();
    u.out.packets.len() + run_at(u.client, entities, u.client.loaded_entities, id)
}

/// Every packet of an update that tells of a move of a live entity stands
/// in what is sent of that entity, which the client saw when the update
/// began and goes on seeing. The client holds no entity twice, as every
/// client does. The update's outbox holds what
/// [`entity_packets`] says of it as one run, at [`run_in_tick`], and the
/// packet is the one of [`movement_packets`] at its place in that run.
pub proof fn law_moves_of_an_entity_in_tick(
    s: Step,
    shared: &SharedServer,
    entities: &Entities,
    world: World,
    min_y: i32,
    fresh_id: i64,
    id: EntityId,
    i: int,
)
    requires
        entities.wf(),
        s.client.loaded_entities.no_duplicates(),
        entities@.contains_key(id),
        s.out.packets.len() <= i < s.tick_in(
            shared,
            entities,
            world,
            min_y,
            fresh_id,
        ).out.packets.len(),
        moves(s.tick_in(shared, entities, world, min_y, fresh_id).out.packets[i], id.network_id()),
    ensures
        !respawns(s.client, shared.current_tick),
        s.client.loaded_entities.contains(id),
        keeps_entity(s.client, entities, id),
        ({
            let e = s.tick_in(shared, entities, world, min_y, fresh_id);
            let of_it = entity_packets(entities@[id], id);
            let moved = movement_packets(entities@[id], id);
            let offset = move_at(entities@[id], id);
            let at = run_in_tick(s, shared, entities, world, min_y, fresh_id, id);
            &&& s.out.packets.len() <= at
            &&& has_run(e.out.packets, at, of_it)
            &&& at + offset <= i < at + offset + moved.len()
            &&& e.out.packets[i] == moved[i - at - offset]
        }),
{
    let c = s.client;
    let now = shared.current_tick;
    let h = s.herald(shared, world, fresh_id);
    let t = h.terrain(world, min_y, now);
    let u = t.settle();
    let p = u.populate(entities, world);
    let e = p.conclude();
    let of_it = entity_packets(entities@[id], id);
    lemma_tick_stages(s, shared, entities, world, min_y, fresh_id);
    lemma_herald(s, shared, world, fresh_id);
    lemma_terrain(h, world, min_y, now);
    lemma_settle(t);
    lemma_populate(u, entities, world);
    lemma_conclude(p);
    lemma_grown_trans(s.out, h.out, t.out);
    lemma_grown_trans(s.out, t.out, u.out);
    lemma_grown_trans(u.out, p.out, e.out);
    // The packet is of the fourth stage.
    assert(is_move(e.out.packets[i]));
    assert(u.out.packets.len() <= i < p.out.packets.len() && e.out.packets[i]
        == p.out.packets[i]) by {
        if i < p.out.packets.len() {
            assert(e.out.packets[i] == p.out.packets[i]);
            if i < u.out.packets.len() {
                assert(p.out.packets[i] == u.out.packets[i]);
                if i < t.out.packets.len() {
                    assert(u.out.packets[i] == t.out.packets[i]);
                    if i < h.out.packets.len() {
                        assert(t.out.packets[i] == h.out.packets[i]);
                    }
                }
            }
        }
    }
    // And there of what is sent of the entities that the client sees.
    let uc = u.client;
    let stream = entities_stream(uc, entities, uc.loaded_entities);
    crate::client::stages::lemma_populate_moves(u, entities, world, i);
    let m = i - u.out.packets.len();
    assert(same_outlook(c, uc));
    assert(uc.loaded_entities.no_duplicates());
    lemma_moves_in_entities_stream(uc, entities, uc.loaded_entities, id, m);
    let a = run_at(uc, entities, uc.loaded_entities, id);
    assert(stream[a + (m - a)] == of_it[m - a]);
    lemma_moves_in_entity_packets(entities@[id], id, m - a);
    crate::client::stages::lemma_populate_begins(u, entities, world);
    let s1 = u.update_entities(entities);
    lemma_grown_trans(s1.out, p.out, e.out);
    let at = u.out.packets.len() + a;
    assert(has_run(e.out.packets, at, of_it)) by {
        assert forall|k: int| 0 <= k < of_it.len() implies #[trigger] e.out.packets[at + k]
            == of_it[k] by {
            assert(s1.out.packets[at + k] == stream[a + k]);
            assert(e.out.packets[at + k] == s1.out.packets[at + k]);
        }
    }
    assert(e.out.packets[i] == of_it[m - a]);
}

/// Of an entity that moved by less than eight blocks on every axis, an
/// update sends a client that holds no entity twice at most one packet that
/// tells of a move: the relative one that carries the move exactly, and so
/// no teleport. With [`law_entity_packets_in_tick`], which says when it is
/// sent: exactly one.
pub proof fn law_short_move_once_in_tick(
    s: Step,
    shared: &SharedServer,
    entities: &Entities,
    world: World,
    min_y: i32,
    fresh_id: i64,
    id: EntityId,
    i: int,
    j: int,
)
    requires
        entities.wf(),
        s.client.loaded_entities.no_duplicates(),
        entities@.contains_key(id),
        entities@[id].position != entities@[id].old_position,
        entities@[id].position.minus(entities@[id].old_position).max_abs() < MAX_RELATIVE_MOVE,
        s.out.packets.len() <= i < s.tick_in(
            shared,
            entities,
            world,
            min_y,
            fresh_id,
        ).out.packets.len(),
        s.out.packets.len() <= j < s.tick_in(
            shared,
            entities,
            world,
            min_y,
            fresh_id,
        ).out.packets.len(),
        moves(s.tick_in(shared, entities, world, min_y, fresh_id).out.packets[i], id.network_id()),
        moves(s.tick_in(shared, entities, world, min_y, fresh_id).out.packets[j], id.network_id()),
    ensures
        i == j,
        seq![s.tick_in(shared, entities, world, min_y, fresh_id).out.packets[i]]
            == movement_packets(entities@[id], id),
{
    let moved = movement_packets(entities@[id], id);
    law_short_move_is_one_relative_packet(entities@[id], id);
    law_moves_of_an_entity_in_tick(s, shared, entities, world, min_y, fresh_id, id, i);
    law_moves_of_an_entity_in_tick(s, shared, entities, world, min_y, fresh_id, id, j);
    assert(moved.len() == 1);
    assert(seq![s.tick_in(shared, entities, world, min_y, fresh_id).out.packets[i]] =~= moved);
}

/// Of an entity that a client saw when an update began and goes on seeing,
/// and that moved by less than eight blocks on every axis, the update sends
/// exactly one packet that tells of a move: the relative one that carries
/// the move exactly. No teleport of it is sent. Left out are the updates in
/// which a respawn is pending or the client is disconnected on the way.
pub proof fn law_short_move_exactly_once_in_tick(
    s: Step,
    shared: &SharedServer,
    entities: &Entities,
    world: World,
    min_y: i32,
    fresh_id: i64,
    id: EntityId,
)
    requires
        entities.wf(),
        s.client.loaded_entities.no_duplicates(),
        !respawns(s.client, shared.current_tick),
        s.herald(shared, world, fresh_id).out.open,
        s.client.loaded_entities.contains(id),
        keeps_entity(s.client, entities, id),
        entities@[id].position != entities@[id].old_position,
        entities@[id].position.minus(entities@[id].old_position).max_abs() < MAX_RELATIVE_MOVE,
    ensures
        ({
            let sent = s.tick_in(shared, entities, world, min_y, fresh_id).out.packets;
            exists|k: int|
                {
                    &&& s.out.packets.len() <= k < sent.len()
                    &&& #[trigger] seq![sent[k]] == movement_packets(entities@[id], id)
                    &&& forall|i: int|
                        s.out.packets.len() <= i < sent.len() && #[trigger] moves(
                            sent[i],
                            id.network_id(),
                        ) ==> i == k
                }
        }),
{
    let e = entities@[id];
    let sent = s.tick_in(shared, entities, world, min_y, fresh_id).out.packets;
    let moved = movement_packets(e, id);
    law_short_move_is_one_relative_packet(e, id);
    law_entity_packets_in_tick(s, shared, entities, world, min_y, fresh_id, id);
    lemma_entity_packets_hold_the_move(e, id);
    let at = choose|at: int|
        s.out.packets.len() <= at && #[trigger] has_run(sent, at, entity_packets(e, id));
    let k = at + move_at(e, id);
    assert(sent[at + move_at(e, id)] == entity_packets(e, id)[move_at(e, id)]);
    assert(entity_packets(e, id)[move_at(e, id) + 0] == moved[0]);
    assert(seq![sent[k]] =~= moved);
    assert(moves(sent[k], id.network_id()));
    assert forall|i: int|
        s.out.packets.len() <= i < sent.len() && #[trigger] moves(
            sent[i],
            id.network_id(),
        ) implies i == k by {
        law_short_move_once_in_tick(s, shared, entities, world, min_y, fresh_id, id, i, k);
    }
}

} // verus!
