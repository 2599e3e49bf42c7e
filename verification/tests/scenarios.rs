use valence::c2s::C2sPlayPacket;
use valence::chunk::Chunk;
use valence::client::{Client, NewClientData};
use valence::entity::{Entities, EntityKind};
use valence::event::GameMode;
use valence::fixed::ONE;
use valence::geometry::{BlockPos, ChunkPos, Vec3};
use valence::ident::{DimensionId, DimensionName, DimensionTypeName};
use valence::outbox::Outbox;
use valence::s2c::{Respawn, S2cPlayPacket};
use valence::server::{Dimension, DimensionEffects, SharedServer};
use valence::world::{World, WorldId, Worlds};

const U: u128 = 0x0123_4567_89ab_cdef_0123_4567_89ab_cdef;

fn shared(tick: i64) -> SharedServer {
    SharedServer {
        tick_rate: 20,
        current_tick: tick,
        dimensions: vec![
            Dimension::overworld(),
            Dimension {
                natural: false,
                ambient_light: 410,
                fixed_time: Some(18000),
                effects: DimensionEffects::TheNether,
                min_y: 0,
                height: 256,
            },
        ],
        biomes: vec![],
    }
}

fn client(
    shared: &SharedServer,
) -> (Client, flume::Receiver<S2cPlayPacket>, flume::Sender<C2sPlayPacket>) {
    let (to_client, from_server) = flume::bounded(4096);
    let (to_server, from_client) = flume::bounded(4096);
    let c = Client::new(
        to_client,
        from_client,
        shared,
        NewClientData { uuid: U, username: "alice".to_string(), textures: None },
    );
    (c, from_server, to_server)
}

fn world(worlds: &mut Worlds, dimension: u16) -> WorldId {
    match worlds.insert(World::new(DimensionId(dimension))) {
        Ok(id) => id,
        Err(_) => panic!("no room for a world"),
    }
}

/// Puts a chunk of one layer, made on tick 0, at every position of the
/// square of side `2 * d + 1` around `(cx, cz)`.
fn fill(worlds: &mut Worlds, id: WorldId, cx: i32, cz: i32, d: i32) {
    let w = worlds.get_mut(id).unwrap();
    for z in cz - d..=cz + d {
        for x in cx - d..=cx + d {
            w.chunks.insert(ChunkPos::new(x, z), Chunk::new(1, 0));
        }
    }
}

fn tick(
    c: &mut Client,
    shared: &SharedServer,
    entities: &Entities,
    worlds: &Worlds,
) -> Outbox {
    let mut out = Outbox::new();
    c.tick(shared, entities, worlds, 777, &mut out);
    out
}

fn blocks(x: i64, y: i64, z: i64) -> Vec3 {
    Vec3 { x: x * ONE, y: y * ONE, z: z * ONE }
}

fn count_chunk_data(packets: &[S2cPlayPacket]) -> usize {
    packets.iter().filter(|p| matches!(p, S2cPlayPacket::LevelChunkWithLight { .. })).count()
}

fn count_forget(packets: &[S2cPlayPacket]) -> usize {
    packets.iter().filter(|p| matches!(p, S2cPlayPacket::ForgetLevelChunk { .. })).count()
}

fn positions(packets: &[S2cPlayPacket]) -> Vec<(Vec3, i32)> {
    let mut v = Vec::new();
    for p in packets {
        if let S2cPlayPacket::PlayerPosition { position, teleport_id, .. } = p {
            v.push((*position, *teleport_id));
        }
    }
    v
}

#[test]
fn join_and_spawn() {
    let mut sh = shared(1);
    let entities = Entities::new();
    let mut worlds = Worlds::new();
    let w = world(&mut worlds, 0);
    let (mut c, _rx, _tx) = client(&sh);
    assert_eq!(c.uuid(), U);
    c.spawn(w);

    let out = tick(&mut c, &sh, &entities, &worlds);
    assert!(out.open);
    match &out.packets[0] {
        S2cPlayPacket::Login(login) => {
            assert_eq!(login.entity_id, 0);
            assert_eq!(login.view_distance, 16);
            assert_eq!(login.gamemode, GameMode::Survival);
            assert_eq!(login.previous_gamemode, GameMode::Survival);
            assert!(!login.is_hardcore);
            assert_eq!(login.simulation_distance, 16);
            assert_eq!(login.max_players, 0);
            assert_eq!(login.hashed_seed, 0);
            assert_eq!(login.dimension_name, DimensionName::Dimension(DimensionId(0)));
            assert_eq!(login.dimension_type_name, DimensionTypeName(DimensionId(0)));
            assert_eq!(
                login.dimension_names,
                vec![
                    DimensionName::Dimension(DimensionId(0)),
                    DimensionName::Dimension(DimensionId(1)),
                    DimensionName::Dummy,
                ]
            );
            assert_eq!(login.last_death_location, None);
            assert_eq!(login.registry_codec.dimension_types.len(), 2);
        }
        other => panic!("the first packet is {other:?}"),
    }
    assert_eq!(
        out.packets[1],
        S2cPlayPacket::SpawnPosition { location: BlockPos::new(0, 0, 0), angle: 0 }
    );
    assert_eq!(
        out.packets[2],
        S2cPlayPacket::PlayerPosition {
            position: Vec3 { x: 0, y: 0, z: 0 },
            yaw: 0,
            pitch: 0,
            flags: 0,
            teleport_id: 0,
            dismount_vehicle: false,
        }
    );
    assert_eq!(out.packets.len(), 3);
    assert!(c.loaded_chunks().is_empty());

    sh.current_tick = 2;
    let out = tick(&mut c, &sh, &entities, &worlds);
    assert!(out.packets.is_empty());
    assert_eq!(c.pending_teleports(), 1);
}

#[test]
fn teleport_coalescing() {
    let sh = shared(1);
    let entities = Entities::new();
    let mut worlds = Worlds::new();
    let w = world(&mut worlds, 0);
    let (mut c, _rx, _tx) = client(&sh);
    c.spawn(w);
    c.teleport(blocks(10, 20, 30), 0, 0);
    c.teleport(blocks(40, 50, 60), 90 * ONE, 0);
    assert_eq!(c.pending_teleports(), 1);
    assert_eq!(c.position(), blocks(40, 50, 60));

    let out = tick(&mut c, &sh, &entities, &worlds);
    assert_eq!(positions(&out.packets), vec![(blocks(40, 50, 60), 0)]);
    assert!(out.packets.contains(&S2cPlayPacket::PlayerPosition {
        position: blocks(40, 50, 60),
        yaw: 90 * ONE,
        pitch: 0,
        flags: 0,
        teleport_id: 0,
        dismount_vehicle: false,
    }));
    assert_eq!(c.pending_teleports(), 1);
}

#[test]
fn teleports_in_different_ticks_are_numbered_in_turn() {
    let mut sh = shared(1);
    let entities = Entities::new();
    let mut worlds = Worlds::new();
    let w = world(&mut worlds, 0);
    let (mut c, _rx, _tx) = client(&sh);
    c.spawn(w);
    tick(&mut c, &sh, &entities, &worlds);
    sh.current_tick = 2;
    c.teleport(blocks(1, 2, 3), 0, 0);
    let out = tick(&mut c, &sh, &entities, &worlds);
    assert_eq!(positions(&out.packets), vec![(blocks(1, 2, 3), 1)]);
    assert_eq!(c.pending_teleports(), 2);
}

#[test]
fn keepalive_timeout() {
    let mut sh = shared(1);
    let entities = Entities::new();
    let mut worlds = Worlds::new();
    let w = world(&mut worlds, 0);
    let (mut c, _rx, _tx) = client(&sh);
    c.spawn(w);
    tick(&mut c, &sh, &entities, &worlds);

    sh.current_tick = 159;
    let out = tick(&mut c, &sh, &entities, &worlds);
    assert!(out.packets.is_empty());

    sh.current_tick = 160;
    let out = tick(&mut c, &sh, &entities, &worlds);
    assert!(out.open);
    assert_eq!(out.packets, vec![S2cPlayPacket::KeepAlive { id: 777 }]);

    // No answer by tick 320: the outbox comes back closed and empty.
    c.send_message("never sent".to_string());
    sh.current_tick = 320;
    let out = tick(&mut c, &sh, &entities, &worlds);
    assert!(!out.open);
    assert!(out.packets.is_empty());
}

#[test]
fn keepalive_timeout_disconnects_over_the_channel() {
    let mut sh = shared(1);
    let entities = Entities::new();
    let mut worlds = Worlds::new();
    let w = world(&mut worlds, 0);
    let (mut c, rx, _tx) = client(&sh);
    c.spawn(w);
    c.update(&sh, &entities, &worlds);
    assert!(!c.is_disconnected());
    assert_eq!(rx.drain().count(), 3);

    sh.current_tick = 160;
    c.update(&sh, &entities, &worlds);
    let sent: Vec<S2cPlayPacket> = rx.drain().collect();
    assert_eq!(sent.len(), 1);
    assert!(matches!(sent[0], S2cPlayPacket::KeepAlive { .. }));
    assert!(!c.is_disconnected());

    sh.current_tick = 320;
    c.send_message("never sent".to_string());
    c.update(&sh, &entities, &worlds);
    assert!(c.is_disconnected());
    assert_eq!(rx.drain().count(), 0);

    // A disconnected client stays so and is sent nothing.
    sh.current_tick = 321;
    c.update(&sh, &entities, &worlds);
    assert!(c.is_disconnected());
    assert_eq!(rx.try_recv().ok(), None);
}

#[test]
fn keepalive_answered_in_time_is_followed_by_the_next() {
    let mut sh = shared(1);
    let entities = Entities::new();
    let mut worlds = Worlds::new();
    let w = world(&mut worlds, 0);
    let (mut c, _rx, _tx) = client(&sh);
    c.spawn(w);
    tick(&mut c, &sh, &entities, &worlds);
    sh.current_tick = 160;
    tick(&mut c, &sh, &entities, &worlds);
    c.handle_serverbound_packet(&entities, C2sPlayPacket::KeepAlive { id: 777 });
    assert!(!c.is_disconnected());
    sh.current_tick = 320;
    let out = tick(&mut c, &sh, &entities, &worlds);
    assert!(out.open);
    assert_eq!(out.packets, vec![S2cPlayPacket::KeepAlive { id: 777 }]);
}

#[test]
fn cross_chunk_load_and_unload() {
    let mut sh = shared(1);
    let entities = Entities::new();
    let mut worlds = Worlds::new();
    let w = world(&mut worlds, 0);
    fill(&mut worlds, w, 0, 0, 4);
    fill(&mut worlds, w, 100, 0, 4);
    let (mut c, _rx, _tx) = client(&sh);
    c.spawn(w);
    assert_eq!(c.view_distance(), 2);

    let out = tick(&mut c, &sh, &entities, &worlds);
    assert_eq!(count_chunk_data(&out.packets), 25);
    assert_eq!(count_forget(&out.packets), 0);
    assert_eq!(c.loaded_chunks().len(), 25);
    // Row by row from the north, west to east within a row.
    assert_eq!(c.loaded_chunks()[0], ChunkPos::new(-2, -2));
    assert_eq!(c.loaded_chunks()[1], ChunkPos::new(-1, -2));
    assert_eq!(c.loaded_chunks()[24], ChunkPos::new(2, 2));

    sh.current_tick = 2;
    c.teleport(blocks(100 * 16, 0, 0), 0, 0);
    let out = tick(&mut c, &sh, &entities, &worlds);
    assert_eq!(count_chunk_data(&out.packets), 25);
    assert_eq!(count_forget(&out.packets), 25);
    assert_eq!(c.loaded_chunks().len(), 25);
    assert!(c.loaded_chunks().contains(&ChunkPos::new(100, 0)));
    assert!(!c.loaded_chunks().contains(&ChunkPos::new(0, 0)));
    for z in -2..=2 {
        for x in -2..=2 {
            assert!(out
                .packets
                .contains(&S2cPlayPacket::ForgetLevelChunk { chunk_x: x, chunk_z: z }));
        }
    }
    // The centre is told before the chunks, the chunks before the teleport.
    let center = out
        .packets
        .iter()
        .position(|p| matches!(p, S2cPlayPacket::SetChunkCacheCenter { .. }))
        .unwrap();
    let first_chunk = out
        .packets
        .iter()
        .position(|p| matches!(p, S2cPlayPacket::LevelChunkWithLight { .. }))
        .unwrap();
    let teleport = out
        .packets
        .iter()
        .position(|p| matches!(p, S2cPlayPacket::PlayerPosition { .. }))
        .unwrap();
    assert_eq!(
        out.packets[center],
        S2cPlayPacket::SetChunkCacheCenter { chunk_x: 100, chunk_z: 0 }
    );
    assert!(center < first_chunk);
    assert!(first_chunk < teleport);
}

#[test]
fn a_step_over_a_chunk_border_and_back_costs_no_chunk() {
    let mut sh = shared(1);
    let entities = Entities::new();
    let mut worlds = Worlds::new();
    let w = world(&mut worlds, 0);
    fill(&mut worlds, w, 0, 0, 6);
    let (mut c, _rx, _tx) = client(&sh);
    c.spawn(w);
    tick(&mut c, &sh, &entities, &worlds);

    // Two chunks east: everything the client has is within the cache.
    sh.current_tick = 2;
    c.teleport(blocks(2 * 16, 0, 0), 0, 0);
    let out = tick(&mut c, &sh, &entities, &worlds);
    assert_eq!(count_forget(&out.packets), 0);
    assert_eq!(count_chunk_data(&out.packets), 10);
    assert_eq!(c.loaded_chunks().len(), 35);

    // And back: nothing to send.
    sh.current_tick = 3;
    c.teleport(blocks(0, 0, 0), 0, 0);
    let out = tick(&mut c, &sh, &entities, &worlds);
    assert_eq!(count_forget(&out.packets), 0);
    assert_eq!(count_chunk_data(&out.packets), 0);

    // Three chunks east: the westernmost column falls out of the cache.
    sh.current_tick = 4;
    c.teleport(blocks(3 * 16, 0, 0), 0, 0);
    let out = tick(&mut c, &sh, &entities, &worlds);
    assert_eq!(count_forget(&out.packets), 5);
    assert_eq!(count_chunk_data(&out.packets), 5);
}

#[test]
fn entity_distance_cull() {
    let mut sh = shared(1);
    let mut entities = Entities::new();
    let mut worlds = Worlds::new();
    let w = world(&mut worlds, 0);
    let e = entities.create_with_uuid(EntityKind::Zombie, 42).unwrap();
    entities.get_mut(e).unwrap().world = w;
    worlds.update_spatial_indexes(&entities);
    let (mut c, _rx, _tx) = client(&sh);
    c.spawn(w);
    c.teleport(blocks(0, 0, 16 * 2), 0, 0);
    assert_eq!(c.view_distance(), 2);

    let out = tick(&mut c, &sh, &entities, &worlds);
    assert_eq!(c.loaded_entities(), vec![e]);
    assert!(out.packets.iter().any(|p| matches!(
        p,
        S2cPlayPacket::AddEntity { entity_id, uuid: 42, kind: EntityKind::Zombie, .. }
            if *entity_id == e.to_network_id()
    )));

    // Exactly on the boundary the entity stays in sight.
    sh.current_tick = 2;
    let out = tick(&mut c, &sh, &entities, &worlds);
    assert!(out.packets.is_empty());
    assert_eq!(c.loaded_entities(), vec![e]);

    // 32.001 blocks is 131076 units: 4 units past the boundary.
    sh.current_tick = 3;
    c.teleport(Vec3 { x: 0, y: 0, z: 131076 }, 0, 0);
    let out = tick(&mut c, &sh, &entities, &worlds);
    assert!(out
        .packets
        .contains(&S2cPlayPacket::RemoveEntities { entities: vec![e.to_network_id()] }));
}

#[test]
fn an_entity_far_out_of_sight_is_removed_and_stays_so() {
    let mut sh = shared(1);
    let mut entities = Entities::new();
    let mut worlds = Worlds::new();
    let w = world(&mut worlds, 0);
    let e = entities.create_with_uuid(EntityKind::Zombie, 42).unwrap();
    entities.get_mut(e).unwrap().world = w;
    worlds.update_spatial_indexes(&entities);
    let (mut c, _rx, _tx) = client(&sh);
    c.spawn(w);
    tick(&mut c, &sh, &entities, &worlds);
    assert_eq!(c.loaded_entities(), vec![e]);

    sh.current_tick = 2;
    c.teleport(blocks(0, 0, 40), 0, 0);
    let out = tick(&mut c, &sh, &entities, &worlds);
    let removes: Vec<&S2cPlayPacket> = out
        .packets
        .iter()
        .filter(|p| matches!(p, S2cPlayPacket::RemoveEntities { .. }))
        .collect();
    assert_eq!(
        removes,
        vec![&S2cPlayPacket::RemoveEntities { entities: vec![e.to_network_id()] }]
    );
    assert!(c.loaded_entities().is_empty());

    sh.current_tick = 3;
    let out = tick(&mut c, &sh, &entities, &worlds);
    assert!(out.packets.is_empty());
}

#[test]
fn dimension_change() {
    let mut sh = shared(1);
    let entities = Entities::new();
    let mut worlds = Worlds::new();
    let a = world(&mut worlds, 0);
    let b = world(&mut worlds, 1);
    fill(&mut worlds, a, 0, 0, 2);
    fill(&mut worlds, b, 5, 5, 2);
    worlds.get_mut(b).unwrap().meta.is_flat = true;
    let (mut c, _rx, _tx) = client(&sh);
    c.spawn(a);
    c.set_game_mode(GameMode::Creative);
    tick(&mut c, &sh, &entities, &worlds);
    assert_eq!(c.loaded_chunks().len(), 25);

    sh.current_tick = 2;
    c.spawn(b);
    c.teleport(blocks(5 * 16 + 8, 70, 5 * 16 + 8), 0, 0);
    let out = tick(&mut c, &sh, &entities, &worlds);
    let p = &out.packets;
    assert_eq!(
        p[0],
        S2cPlayPacket::Respawn(Respawn {
            dimension_type_name: DimensionTypeName(DimensionId(0)),
            dimension_name: DimensionName::Dummy,
            hashed_seed: 0,
            game_mode: GameMode::Creative,
            previous_game_mode: GameMode::Creative,
            is_debug: false,
            is_flat: false,
            copy_metadata: true,
            last_death_location: None,
        })
    );
    assert_eq!(
        p[1],
        S2cPlayPacket::Respawn(Respawn {
            dimension_type_name: DimensionTypeName(DimensionId(1)),
            dimension_name: DimensionName::Dimension(DimensionId(1)),
            hashed_seed: 0,
            game_mode: GameMode::Creative,
            previous_game_mode: GameMode::Creative,
            is_debug: false,
            is_flat: true,
            copy_metadata: true,
            last_death_location: None,
        })
    );
    assert_eq!(
        p[2],
        S2cPlayPacket::GameEvent {
            reason: valence::s2c::GameEventReason::ChangeGameMode,
            value: ONE,
        }
    );
    assert_eq!(p[3], S2cPlayPacket::SetChunkCacheCenter { chunk_x: 5, chunk_z: 5 });
    for k in 0..25 {
        match &p[4 + k] {
            S2cPlayPacket::LevelChunkWithLight { chunk_x, chunk_z, blocks } => {
                assert_eq!(*chunk_x, 3 + (k % 5) as i32);
                assert_eq!(*chunk_z, 3 + (k / 5) as i32);
                assert_eq!(blocks.len(), 256);
            }
            other => panic!("packet {} is {other:?}", 4 + k),
        }
    }
    assert_eq!(
        p[29],
        S2cPlayPacket::PlayerPosition {
            position: blocks(5 * 16 + 8, 70, 5 * 16 + 8),
            yaw: 0,
            pitch: 0,
            flags: 0,
            teleport_id: 1,
            dismount_vehicle: false,
        }
    );
    assert_eq!(p.len(), 30);
    // The chunks of the world left behind are dropped without a word.
    assert_eq!(count_forget(p), 0);
    assert_eq!(c.loaded_chunks().len(), 25);
    assert_eq!(c.world(), b);
}

#[test]
fn respawn_in_the_same_dimension_bounces_through_the_dummy() {
    let mut sh = shared(1);
    let entities = Entities::new();
    let mut worlds = Worlds::new();
    let a = world(&mut worlds, 0);
    let (mut c, _rx, _tx) = client(&sh);
    c.spawn(a);
    tick(&mut c, &sh, &entities, &worlds);
    sh.current_tick = 2;
    c.spawn(a);
    let out = tick(&mut c, &sh, &entities, &worlds);
    let respawns: Vec<DimensionName> = out
        .packets
        .iter()
        .filter_map(|p| match p {
            S2cPlayPacket::Respawn(r) => Some(r.dimension_name),
            _ => None,
        })
        .collect();
    assert_eq!(
        respawns,
        vec![DimensionName::Dummy, DimensionName::Dimension(DimensionId(0))]
    );
    assert!(matches!(out.packets[0], S2cPlayPacket::Respawn(_)));
    assert!(matches!(out.packets[1], S2cPlayPacket::Respawn(_)));
}

#[test]
fn a_client_in_no_world_is_disconnected() {
    let sh = shared(1);
    let entities = Entities::new();
    let worlds = Worlds::new();
    let (mut c, rx, _tx) = client(&sh);
    let out = tick(&mut c, &sh, &entities, &worlds);
    assert!(!out.open);
    assert!(out.packets.is_empty());
    c.update(&sh, &entities, &worlds);
    assert!(c.is_disconnected());
    assert_eq!(rx.try_recv().ok(), None);
}

#[test]
fn a_client_in_a_world_of_an_unknown_dimension_is_disconnected() {
    let sh = shared(1);
    let entities = Entities::new();
    let mut worlds = Worlds::new();
    let w = world(&mut worlds, 9);
    let (mut c, _rx, _tx) = client(&sh);
    c.spawn(w);
    let out = tick(&mut c, &sh, &entities, &worlds);
    assert!(!out.open);
    assert!(out.packets.is_empty());
}

#[test]
fn a_full_channel_disconnects_the_client() {
    let sh = shared(1);
    let entities = Entities::new();
    let mut worlds = Worlds::new();
    let w = world(&mut worlds, 0);
    let (to_client, from_server) = flume::bounded(2);
    let (_to_server, from_client) = flume::bounded::<C2sPlayPacket>(16);
    let mut c = Client::new(
        to_client,
        from_client,
        &sh,
        NewClientData { uuid: U, username: "bob".to_string(), textures: None },
    );
    c.spawn(w);
    // The first tick owes three packets; the channel takes two.
    c.update(&sh, &entities, &worlds);
    assert!(c.is_disconnected());
    assert_eq!(from_server.drain().count(), 2);
}

#[test]
fn a_closed_connection_disconnects_the_client() {
    let sh = shared(1);
    let entities = Entities::new();
    let mut worlds = Worlds::new();
    let w = world(&mut worlds, 0);
    let (mut c, rx, tx) = client(&sh);
    c.spawn(w);
    drop(tx);
    c.update(&sh, &entities, &worlds);
    assert!(c.is_disconnected());
    assert_eq!(rx.try_recv().ok(), None);

    let (mut c, rx, _tx) = client(&sh);
    c.spawn(w);
    drop(rx);
    c.update(&sh, &entities, &worlds);
    assert!(c.is_disconnected());
}
