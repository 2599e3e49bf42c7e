use valence::c2s::C2sPlayPacket;
use valence::chunk::{BlockChange, Chunk};
use valence::client::{Client, ClientId, Clients, NewClientData};
use valence::entity::{Entities, EntityId, EntityKind, TrackedData};
use valence::event::GameMode;
use valence::flags::{ClientFlag, ClientFlags};
use valence::geometry::{Aabb, ChunkPos, Vec3};
use valence::ident::DimensionId;
use valence::outbox::Outbox;
use valence::player_list::PlayerList;
use valence::s2c::S2cPlayPacket;
use valence::seqs::copy_vec;
use valence::server::{Dimension, SharedServer};
use valence::slotmap::{Key, SlotMap};
use valence::world::{Chunks, IndexEntry, SpatialIndex, World, WorldId, Worlds};

#[test]
fn slotmap_insert_get_remove() {
    let mut m: SlotMap<&'static str> = SlotMap::new();
    assert_eq!(m.len(), 0);
    assert!(!m.is_full());
    let a = m.insert("a").ok().unwrap();
    let b = m.insert("b").ok().unwrap();
    assert_ne!(a, b);
    assert_eq!(a, Key { index: 0, generation: 1 });
    assert_eq!(b, Key { index: 1, generation: 1 });
    assert_eq!(m.len(), 2);
    assert_eq!(m.get(a), Some(&"a"));
    assert_eq!(m.get(b), Some(&"b"));
    assert!(m.contains(a));
    assert_eq!(m.remove(a), Some("a"));
    assert_eq!(m.remove(a), None);
    assert_eq!(m.get(a), None);
    assert!(!m.contains(a));
    assert_eq!(m.len(), 1);
    assert_eq!(m.get(b), Some(&"b"));
}

#[test]
fn slotmap_stale_keys_stay_stale() {
    let mut m: SlotMap<u32> = SlotMap::new();
    let a = m.insert(1).ok().unwrap();
    m.remove(a);
    let b = m.insert(2).ok().unwrap();
    // The slot is used again, under another generation.
    assert_eq!(b.index, a.index);
    assert_eq!(b.generation, a.generation + 1);
    assert_eq!(m.get(a), None);
    assert_eq!(m.get_mut(a), None);
    assert_eq!(m.remove(a), None);
    assert_eq!(m.get(b), Some(&2));
    for _ in 0..100 {
        let k = m.insert(0).ok().unwrap();
        m.remove(k);
        assert_eq!(m.get(a), None);
    }
}

#[test]
fn slotmap_null_key_is_never_live() {
    let mut m: SlotMap<u32> = SlotMap::new();
    assert_eq!(Key::null(), Key::default());
    assert_eq!(m.get(Key::null()), None);
    let a = m.insert(1).ok().unwrap();
    assert_ne!(a, Key::null());
    assert_eq!(m.get(Key::null()), None);
    assert_eq!(m.remove(Key::null()), None);
    assert_eq!(m.get(Key { index: 0, generation: 2 }), None);
    assert_eq!(m.get(Key { index: 5, generation: 1 }), None);
}

#[test]
fn slotmap_get_mut_writes_through() {
    let mut m: SlotMap<u32> = SlotMap::new();
    let a = m.insert(1).ok().unwrap();
    let b = m.insert(2).ok().unwrap();
    *m.get_mut(a).unwrap() = 10;
    assert_eq!(m.get(a), Some(&10));
    assert_eq!(m.get(b), Some(&2));
    assert_eq!(m.len(), 2);
}

#[test]
fn slotmap_keys_and_key_at() {
    let mut m: SlotMap<u32> = SlotMap::new();
    let a = m.insert(1).ok().unwrap();
    let b = m.insert(2).ok().unwrap();
    let c = m.insert(3).ok().unwrap();
    m.remove(b);
    assert_eq!(m.keys(), vec![a, c]);
    assert_eq!(m.key_at(0), Some(a));
    assert_eq!(m.key_at(1), None);
    assert_eq!(m.key_at(2), Some(c));
    assert_eq!(m.key_at(3), None);
    assert_eq!(m.key_at(u32::MAX), None);
    let d = m.insert(4).ok().unwrap();
    assert_eq!(d.index, 1);
    assert_eq!(m.keys(), vec![a, d, c]);
}

fn shared() -> SharedServer {
    SharedServer {
        tick_rate: 20,
        current_tick: 1,
        dimensions: vec![Dimension::overworld()],
        biomes: vec![],
    }
}

fn client(uuid: u128) -> (Client, flume::Receiver<S2cPlayPacket>) {
    let (to_client, rx) = flume::bounded(64);
    let (_tx, from_client) = flume::bounded::<C2sPlayPacket>(64);
    let c = Client::new(
        to_client,
        from_client,
        &shared(),
        NewClientData { uuid, username: format!("player{uuid}"), textures: None },
    );
    (c, rx)
}

#[test]
fn clients_insert_get_delete() {
    let mut clients = Clients::new();
    assert_eq!(clients.count(), 0);
    let a = clients.insert(client(1).0).ok().unwrap();
    let b = clients.insert(client(2).0).ok().unwrap();
    assert_eq!(clients.count(), 2);
    assert_eq!(clients.get(a).unwrap().uuid(), 1);
    assert_eq!(clients.get(b).unwrap().uuid(), 2);
    assert!(clients.get(ClientId::default()).is_none());
    assert_eq!(clients.ids(), vec![a, b]);
    assert!(clients.delete(a));
    assert!(!clients.delete(a));
    assert!(clients.get(a).is_none());
    assert!(clients.get_mut(a).is_none());
    assert_eq!(clients.count(), 1);
    let c = clients.insert(client(3).0).ok().unwrap();
    assert_ne!(c, a);
    assert!(clients.get(a).is_none());
    assert_eq!(clients.get(c).unwrap().uuid(), 3);
}

#[test]
fn clients_get_mut_and_iter() {
    let mut clients = Clients::new();
    let a = clients.insert(client(1).0).ok().unwrap();
    let b = clients.insert(client(2).0).ok().unwrap();
    clients.get_mut(b).unwrap().set_game_mode(GameMode::Creative);
    let seen: Vec<(ClientId, u128, GameMode)> =
        clients.iter().into_iter().map(|(id, c)| (id, c.uuid(), c.game_mode())).collect();
    assert_eq!(seen, vec![(a, 1, GameMode::Survival), (b, 2, GameMode::Creative)]);
}

#[test]
fn clients_retain_deletes_where_the_answer_is_no() {
    let mut clients = Clients::new();
    let a = clients.insert(client(1).0).ok().unwrap();
    let b = clients.insert(client(2).0).ok().unwrap();
    let c = clients.insert(client(3).0).ok().unwrap();
    clients.get_mut(b).unwrap().disconnect_no_reason();
    clients.retain(|_, client| !client.is_disconnected());
    assert_eq!(clients.ids(), vec![a, c]);
    assert!(clients.get(b).is_none());
    clients.retain(|id, _| id != a);
    assert_eq!(clients.ids(), vec![c]);
    clients.retain(|_, _| false);
    assert_eq!(clients.count(), 0);
}

#[test]
fn entities_create_and_delete() {
    let mut entities = Entities::new();
    let a = entities.create_with_uuid(EntityKind::Zombie, 7).unwrap();
    assert_eq!(entities.create_with_uuid(EntityKind::Item, 7), None);
    let b = entities.create_with_uuid(EntityKind::Item, 8).unwrap();
    assert_eq!(entities.ids(), vec![a, b]);
    assert_eq!(entities.get(a).unwrap().kind, EntityKind::Zombie);
    assert_eq!(entities.get(a).unwrap().uuid, 7);
    assert_eq!(entities.get(b).unwrap().kind, EntityKind::Item);
    assert!(entities.delete(a));
    assert!(!entities.delete(a));
    assert!(entities.get(a).is_none());
    // The UUID is free again.
    let c = entities.create_with_uuid(EntityKind::Player, 7).unwrap();
    assert_ne!(c, a);
    assert_eq!(c.to_network_id(), a.to_network_id());
    assert!(entities.get(EntityId::default()).is_none());
}

#[test]
fn entities_create_draws_a_uuid() {
    let mut entities = Entities::new();
    let mut made = Vec::new();
    // While there is no entity every UUID is free.
    made.push(entities.create(EntityKind::ArmorStand).unwrap());
    for _ in 0..20 {
        if let Some(id) = entities.create(EntityKind::ArmorStand) {
            made.push(id);
        }
    }
    assert!(!made.is_empty());
    assert_eq!(entities.ids(), made);
    let mut uuids: Vec<u128> = made.iter().map(|id| entities.get(*id).unwrap().uuid).collect();
    uuids.sort();
    uuids.dedup();
    assert_eq!(uuids.len(), made.len());
    for id in made {
        assert_eq!(entities.get(id).unwrap().kind, EntityKind::ArmorStand);
    }
}

#[test]
fn network_ids_start_at_one() {
    let mut entities = Entities::new();
    let a = entities.create_with_uuid(EntityKind::Zombie, 1).unwrap();
    let b = entities.create_with_uuid(EntityKind::Zombie, 2).unwrap();
    assert_eq!(a.to_network_id(), 1);
    assert_eq!(b.to_network_id(), 2);
    assert_eq!(entities.get_with_network_id(1), Some(a));
    assert_eq!(entities.get_with_network_id(2), Some(b));
    assert_eq!(entities.get_with_network_id(0), None);
    assert_eq!(entities.get_with_network_id(3), None);
    assert_eq!(entities.get_with_network_id(-1), None);
    assert_eq!(EntityId(Key { index: u32::MAX, generation: 1 }).to_network_id(), 0);
    assert_eq!(EntityId(Key { index: 0x7fff_ffff, generation: 1 }).to_network_id(), i32::MIN);
}

#[test]
fn entities_sweep() {
    let mut entities = Entities::new();
    let a = entities.create_with_uuid(EntityKind::Zombie, 1).unwrap();
    {
        let e = entities.get_mut(a).unwrap();
        e.position = Vec3 { x: 5, y: 6, z: 7 };
        e.set_rotation(1, 2);
        e.set_head_yaw(3);
        e.set_velocity(Vec3 { x: 1, y: 1, z: 1 });
        e.data.write(9);
        e.data.trigger(1);
        assert!(e.yaw_or_pitch_modified && e.head_yaw_modified && e.velocity_modified);
    }
    entities.clear_modifications();
    let e = entities.get(a).unwrap();
    assert_eq!(e.old_position, Vec3 { x: 5, y: 6, z: 7 });
    assert_eq!(e.position, Vec3 { x: 5, y: 6, z: 7 });
    assert_eq!((e.yaw, e.pitch, e.head_yaw), (1, 2, 3));
    assert!(!e.yaw_or_pitch_modified && !e.head_yaw_modified && !e.velocity_modified);
    assert_eq!(e.data.initial, vec![9]);
    assert!(e.data.updated.is_empty());
    assert!(e.data.event_codes.is_empty());
}

#[test]
fn tracked_data() {
    let mut d = TrackedData::new();
    d.write(1);
    d.trigger(2);
    d.write(3);
    assert_eq!(d.initial, vec![1, 3]);
    assert_eq!(d.updated, vec![1, 3]);
    assert_eq!(d.event_codes, vec![2]);
    d.clear_modifications();
    assert_eq!(d.initial, vec![1, 3]);
    assert!(d.updated.is_empty());
    assert!(d.event_codes.is_empty());
}

#[test]
fn worlds_insert_get_delete() {
    let mut worlds = Worlds::new();
    assert_eq!(worlds.count(), 0);
    let a = worlds.insert(World::new(DimensionId(0))).ok().unwrap();
    let b = worlds.insert(World::new(DimensionId(1))).ok().unwrap();
    assert_eq!(worlds.count(), 2);
    assert_eq!(worlds.ids(), vec![a, b]);
    assert_eq!(worlds.get(b).unwrap().meta.dimension, DimensionId(1));
    assert!(!worlds.get(a).unwrap().meta.is_flat);
    worlds.get_mut(a).unwrap().meta.is_flat = true;
    assert!(worlds.get(a).unwrap().meta.is_flat);
    assert!(worlds.get(WorldId::default()).is_none());
    assert!(worlds.delete(a));
    assert!(!worlds.delete(a));
    assert!(worlds.get(a).is_none());
    assert_eq!(worlds.count(), 1);
}

#[test]
fn chunks_insert_and_replace() {
    let mut chunks = Chunks::new();
    assert!(chunks.get(ChunkPos::new(0, 0)).is_none());
    assert_eq!(chunks.index_of(ChunkPos::new(0, 0)), None);
    chunks.insert(ChunkPos::new(0, 0), Chunk::new(1, 5));
    chunks.insert(ChunkPos::new(-3, 9), Chunk::new(2, 6));
    assert_eq!(chunks.get(ChunkPos::new(0, 0)).unwrap().created_tick(), 5);
    assert_eq!(chunks.get(ChunkPos::new(-3, 9)).unwrap().blocks.len(), 512);
    assert!(chunks.get(ChunkPos::new(9, -3)).is_none());
    chunks.insert(ChunkPos::new(0, 0), Chunk::new(3, 7));
    assert_eq!(chunks.get(ChunkPos::new(0, 0)).unwrap().created_tick(), 7);
    assert_eq!(chunks.entries.len(), 2);
    assert_eq!(chunks.index_of(ChunkPos::new(-3, 9)), Some(1));
    assert!(chunks.get_mut(ChunkPos::new(1, 1)).is_none());
    chunks.get_mut(ChunkPos::new(-3, 9)).unwrap().set_block_state(1, 1, 1, 4);
    assert_eq!(chunks.get(ChunkPos::new(-3, 9)).unwrap().get_block_state(1, 1, 1), Some(4));
}

#[test]
fn chunk_cells() {
    let mut c = Chunk::new(2, 3);
    assert_eq!(c.created_tick(), 3);
    assert_eq!(c.blocks, vec![0u16; 512]);
    assert_eq!(c.get_block_state(0, 0, 0), Some(0));
    assert_eq!(c.get_block_state(15, 1, 15), Some(0));
    assert_eq!(c.get_block_state(16, 0, 0), None);
    assert_eq!(c.get_block_state(0, 0, 16), None);
    assert_eq!(c.get_block_state(0, 2, 0), None);
    assert_eq!(c.get_block_state(0, u32::MAX, 0), None);
    assert!(c.set_block_state(15, 1, 15, 77));
    assert_eq!(c.blocks[511], 77);
    assert!(c.set_block_state(1, 0, 2, 5));
    assert_eq!(c.blocks[33], 5);
    assert_eq!(c.get_block_state(1, 0, 2), Some(5));
    assert!(!c.set_block_state(0, 2, 0, 1));
    assert_eq!(
        c.modified,
        vec![
            BlockChange { x: 15, y: 1, z: 15, block_id: 77 },
            BlockChange { x: 1, y: 0, z: 2, block_id: 5 },
        ]
    );
    c.clear_modifications();
    assert!(c.modified.is_empty());
    assert_eq!(c.blocks[511], 77);
    assert!(Chunk::new(0, 0).blocks.is_empty());
}

#[test]
fn chunk_packets() {
    let mut c = Chunk::new(1, 0);
    c.set_block_state(2, 0, 3, 9);
    match c.chunk_data_packet(ChunkPos::new(-1, 4)) {
        S2cPlayPacket::LevelChunkWithLight { chunk_x, chunk_z, blocks } => {
            assert_eq!((chunk_x, chunk_z), (-1, 4));
            assert_eq!(blocks, c.blocks);
        }
        other => panic!("{other:?}"),
    }
    let mut out = Outbox::new();
    c.block_change_packets(ChunkPos::new(-1, 4), -64, &mut out);
    assert_eq!(
        out.packets,
        vec![S2cPlayPacket::BlockUpdate {
            location: valence::geometry::BlockPos::new(-14, -64, 67),
            block_id: 9
        }]
    );
    // At the edge of the world the location is held to what a block
    // position can say.
    let mut out = Outbox::new();
    c.block_change_packets(ChunkPos::new(i32::MAX, i32::MIN), i32::MAX, &mut out);
    assert_eq!(
        out.packets,
        vec![S2cPlayPacket::BlockUpdate {
            location: valence::geometry::BlockPos::new(i32::MAX, i32::MAX, i32::MIN),
            block_id: 9
        }]
    );
}

#[test]
fn spatial_index_query_and_update() {
    let mut entities = Entities::new();
    let mut worlds = Worlds::new();
    let w = worlds.insert(World::new(DimensionId(0))).ok().unwrap();
    let v = worlds.insert(World::new(DimensionId(0))).ok().unwrap();
    let a = entities.create_with_uuid(EntityKind::Zombie, 1).unwrap();
    let b = entities.create_with_uuid(EntityKind::Zombie, 2).unwrap();
    let c = entities.create_with_uuid(EntityKind::Zombie, 3).unwrap();
    entities.get_mut(a).unwrap().world = w;
    entities.get_mut(b).unwrap().world = v;
    entities.get_mut(c).unwrap().world = w;
    entities.get_mut(c).unwrap().position = Vec3 { x: 100 * 4096, y: 0, z: 0 };
    worlds.update_spatial_indexes(&entities);
    let index = &worlds.get(w).unwrap().spatial_index;
    assert_eq!(
        index.entries,
        vec![
            IndexEntry { id: a, hitbox: entities.get(a).unwrap().hitbox() },
            IndexEntry { id: c, hitbox: entities.get(c).unwrap().hitbox() },
        ]
    );
    assert_eq!(index.query(Vec3 { x: 0, y: 0, z: 0 }, 4096), vec![a]);
    assert_eq!(index.query(Vec3 { x: 0, y: 0, z: 0 }, 100 * 4096), vec![a, c]);
    assert_eq!(index.query(Vec3 { x: 50 * 4096, y: 0, z: 0 }, 4096), vec![]);
    assert_eq!(worlds.get(v).unwrap().spatial_index.entries.len(), 1);

    let mut own = SpatialIndex::new();
    own.entries.push(IndexEntry {
        id: a,
        hitbox: Aabb { min: Vec3 { x: 0, y: 0, z: 0 }, max: Vec3 { x: 10, y: 10, z: 10 } },
    });
    assert_eq!(own.query(Vec3 { x: 20, y: 5, z: 5 }, 10), vec![a]);
    assert_eq!(own.query(Vec3 { x: 20, y: 5, z: 5 }, 9), vec![]);
    own.update(&entities, v);
    assert_eq!(own.entries, vec![IndexEntry { id: b, hitbox: entities.get(b).unwrap().hitbox() }]);
}

#[test]
fn world_sweep() {
    let mut w = World::new(DimensionId(0));
    w.chunks.insert(ChunkPos::new(0, 0), Chunk::new(1, 0));
    w.chunks.get_mut(ChunkPos::new(0, 0)).unwrap().set_block_state(0, 0, 0, 1);
    w.meta.player_list.insert(1, "a".to_string(), GameMode::Survival, 0, None);
    w.clear_modifications();
    assert!(w.chunks.get(ChunkPos::new(0, 0)).unwrap().modified.is_empty());
    assert_eq!(w.chunks.get(ChunkPos::new(0, 0)).unwrap().blocks[0], 1);
    assert!(!w.meta.player_list.entries[0].created_this_tick);
}

fn stream(list: &PlayerList, initial: bool) -> Vec<S2cPlayPacket> {
    let mut out = Outbox::new();
    if initial {
        list.initial_packets(&mut out);
    } else {
        list.diff_packets(&mut out);
    }
    out.packets
}

fn add(uuid: u128, name: &str, game_mode: GameMode, ping: i32) -> S2cPlayPacket {
    S2cPlayPacket::PlayerInfoAddPlayer {
        uuid,
        username: name.to_string(),
        game_mode,
        ping,
        display_name: None,
    }
}

#[test]
fn player_list_insert_and_remove() {
    let mut list = PlayerList::new();
    assert!(stream(&list, true).is_empty());
    assert!(stream(&list, false).is_empty());
    assert!(list.insert(1, "a".to_string(), GameMode::Survival, 5, None));
    assert!(list.insert(2, "b".to_string(), GameMode::Creative, 6, None));
    assert!(!list.insert(1, "again".to_string(), GameMode::Creative, 7, None));
    assert!(list.contains(1));
    assert!(!list.contains(3));
    assert_eq!(list.position(2), Some(1));
    assert_eq!(list.position(3), None);
    let both = vec![add(1, "a", GameMode::Survival, 5), add(2, "b", GameMode::Creative, 6)];
    assert_eq!(stream(&list, true), both);
    assert_eq!(stream(&list, false), both);

    // Removed on the tick it was added: nobody heard of it.
    assert!(list.remove(2));
    assert!(!list.remove(2));
    assert_eq!(stream(&list, false), vec![add(1, "a", GameMode::Survival, 5)]);

    list.clear_modifications();
    assert!(stream(&list, false).is_empty());
    assert_eq!(stream(&list, true), vec![add(1, "a", GameMode::Survival, 5)]);

    assert!(list.remove(1));
    assert!(!list.contains(1));
    assert_eq!(stream(&list, false), vec![S2cPlayPacket::PlayerInfoRemovePlayer { uuid: 1 }]);
    assert!(stream(&list, true).is_empty());
    list.clear_modifications();
    assert!(stream(&list, false).is_empty());
}

#[test]
fn player_list_modifications() {
    let mut list = PlayerList::new();
    list.insert(1, "a".to_string(), GameMode::Survival, 5, None);
    list.insert(2, "b".to_string(), GameMode::Survival, 5, None);
    list.clear_modifications();
    list.entries[0].game_mode = GameMode::Adventure;
    list.entries[0].modified_game_mode = true;
    list.entries[0].display_name = Some("A".to_string());
    list.entries[0].modified_display_name = true;
    list.entries[1].ping = 50;
    list.entries[1].modified_ping = true;
    list.insert(3, "c".to_string(), GameMode::Spectator, 0, Some("C".to_string()));
    assert_eq!(
        stream(&list, false),
        vec![
            S2cPlayPacket::PlayerInfoUpdateGameMode { uuid: 1, game_mode: GameMode::Adventure },
            S2cPlayPacket::PlayerInfoUpdateDisplayName {
                uuid: 1,
                display_name: Some("A".to_string())
            },
            S2cPlayPacket::PlayerInfoUpdateLatency { uuid: 2, ping: 50 },
            S2cPlayPacket::PlayerInfoAddPlayer {
                uuid: 3,
                username: "c".to_string(),
                game_mode: GameMode::Spectator,
                ping: 0,
                display_name: Some("C".to_string()),
            },
        ]
    );
}

#[test]
fn flags_are_independent() {
    let all = [
        ClientFlag::Spawn,
        ClientFlag::Sneaking,
        ClientFlag::Sprinting,
        ClientFlag::JumpingWithHorse,
        ClientFlag::OnGround,
        ClientFlag::TeleportedThisTick,
        ClientFlag::ModifiedSpawnPosition,
        ClientFlag::GotKeepalive,
        ClientFlag::Hardcore,
        ClientFlag::AttackSpeedModified,
        ClientFlag::MovementSpeedModified,
        ClientFlag::VelocityModified,
    ];
    for (i, f) in all.iter().enumerate() {
        assert_eq!(f.index() as usize, i);
        let mut flags = ClientFlags::new();
        for g in all {
            assert!(!flags.get(g));
        }
        flags.set(*f, true);
        for g in all {
            assert_eq!(flags.get(g), g == *f);
        }
        let others = all.iter().fold(ClientFlags::new(), |acc, g| acc.with(*g, true)).with(*f, false);
        for g in all {
            assert_eq!(others.get(g), g != *f);
        }
        flags.set(*f, false);
        assert_eq!(flags, ClientFlags::new());
    }
}

#[test]
fn copies() {
    assert_eq!(copy_vec(&vec![1u8, 2, 3]), vec![1, 2, 3]);
    assert_eq!(copy_vec::<u16>(&vec![]), vec![]);
}

#[test]
fn slotmap_take_and_restore() {
    let mut m: SlotMap<u32> = SlotMap::new();
    let a = m.insert(1).ok().unwrap();
    let b = m.insert(2).ok().unwrap();
    assert_eq!(m.take(a), Some(1));
    // The place is kept: the key is not live, and nobody else gets the slot.
    assert_eq!(m.get(a), None);
    assert!(!m.contains(a));
    assert_eq!(m.len(), 1);
    assert_eq!(m.take(a), None);
    assert_eq!(m.remove(a), None);
    let c = m.insert(3).ok().unwrap();
    assert_eq!(c.index, 2);
    assert_eq!(m.keys(), vec![b, c]);
    assert_eq!(m.restore(a, 10), Ok(()));
    assert_eq!(m.get(a), Some(&10));
    assert_eq!(m.len(), 3);
    assert_eq!(m.keys(), vec![a, b, c]);
}

#[test]
fn slotmap_restore_where_nothing_was_taken() {
    let mut m: SlotMap<u32> = SlotMap::new();
    let a = m.insert(1).ok().unwrap();
    // Live.
    assert_eq!(m.restore(a, 5), Err(5));
    assert_eq!(m.get(a), Some(&1));
    // Removed.
    m.remove(a);
    assert_eq!(m.restore(a, 5), Err(5));
    assert_eq!(m.get(a), None);
    // Never issued.
    assert_eq!(m.restore(Key::null(), 5), Err(5));
    assert_eq!(m.restore(Key { index: 9, generation: 1 }, 5), Err(5));
    // Put back already.
    let b = m.insert(2).ok().unwrap();
    m.take(b);
    assert_eq!(m.restore(b, 6), Ok(()));
    assert_eq!(m.restore(b, 7), Err(7));
    assert_eq!(m.get(b), Some(&6));
    // A key of an older generation of a slot that is held out.
    m.take(b);
    assert_eq!(m.restore(a, 8), Err(8));
    assert_eq!(m.restore(b, 9), Ok(()));
    assert_eq!(m.len(), 1);
}

#[test]
fn clients_take_and_restore() {
    let mut clients = Clients::new();
    let a = clients.insert(client(1).0).ok().unwrap();
    let b = clients.insert(client(2).0).ok().unwrap();
    let mut taken = clients.take(a).unwrap();
    assert!(clients.get(a).is_none());
    assert!(clients.take(a).is_none());
    assert_eq!(clients.count(), 1);
    assert_eq!(clients.ids(), vec![b]);
    taken.set_game_mode(GameMode::Adventure);
    assert!(clients.restore(a, taken).is_ok());
    assert_eq!(clients.get(a).unwrap().game_mode(), GameMode::Adventure);
    assert_eq!(clients.get(a).unwrap().uuid(), 1);
    assert_eq!(clients.ids(), vec![a, b]);
    // Nothing was taken from there.
    let stray = client(3).0;
    match clients.restore(b, stray) {
        Err(c) => assert_eq!(c.uuid(), 3),
        Ok(()) => panic!("a client was put where one is"),
    }
    assert_eq!(clients.get(b).unwrap().uuid(), 2);
}

#[test]
fn the_sets_of_a_client_hold_nothing_twice() {
    use_chunk_set();
    use_entity_set();
}

fn use_chunk_set() {
    let mut s = valence::client::sets::ChunkSet::new();
    assert_eq!(s.len(), 0);
    assert!(!s.contains(ChunkPos::new(1, 2)));
    assert!(s.insert(ChunkPos::new(1, 2)));
    assert!(s.insert(ChunkPos::new(2, 1)));
    assert!(!s.insert(ChunkPos::new(1, 2)));
    s.push_new(ChunkPos::new(0, 0));
    assert_eq!(s.len(), 3);
    assert_eq!(s.get(0), ChunkPos::new(1, 2));
    assert_eq!(s.get(2), ChunkPos::new(0, 0));
    assert!(s.contains(ChunkPos::new(2, 1)));
    assert!(!s.contains(ChunkPos::new(2, 2)));
    assert_eq!(s.to_vec(), vec![ChunkPos::new(1, 2), ChunkPos::new(2, 1), ChunkPos::new(0, 0)]);
    s.clear();
    assert_eq!(s.len(), 0);
    assert!(s.to_vec().is_empty());
    assert!(s.insert(ChunkPos::new(1, 2)));
}

fn use_entity_set() {
    let a = EntityId(Key { index: 0, generation: 1 });
    let b = EntityId(Key { index: 0, generation: 2 });
    let mut s = valence::client::sets::EntitySet::new();
    assert!(s.insert(a));
    assert!(s.insert(b));
    assert!(!s.insert(a));
    assert!(!s.insert(b));
    assert_eq!(s.len(), 2);
    assert_eq!(s.get(1), b);
    assert!(s.contains(a));
    assert!(!s.contains(EntityId::default()));
    s.push_new(EntityId::default());
    assert_eq!(s.to_vec(), vec![a, b, EntityId::default()]);
    s.clear();
    assert!(!s.contains(a));
    assert_eq!(s.len(), 0);
}
