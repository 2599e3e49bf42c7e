use valence::c2s::{C2sPlayPacket, Hand};
use valence::client::{Client, NewClientData};
use valence::entity::EntityKind;
use valence::event::{Event, GameMode};
use valence::ident::{DimensionId, Ident};
use valence::player_list::PlayerList;
use valence::registry::{
    make_registry_codec, BiomeEntry, ChatTypeEntry, ChatTypeName, DimensionTypeEntry,
    NarrationPriority,
};
use valence::ident::{DimensionName, DimensionTypeName};
use valence::s2c::S2cPlayPacket;
use valence::server::{Biome, BiomePrecipitation, Dimension, DimensionEffects, SharedServer};
use valence::tick::{join_game, server_full_reason, Server};
use valence::world::World;

fn shared() -> SharedServer {
    SharedServer {
        tick_rate: 20,
        current_tick: 1,
        dimensions: vec![Dimension::overworld()],
        biomes: vec![],
    }
}

fn client(
    sh: &SharedServer,
    uuid: u128,
) -> (Client, flume::Receiver<S2cPlayPacket>, flume::Sender<C2sPlayPacket>) {
    let (to_client, rx) = flume::bounded(64);
    let (tx, from_client) = flume::bounded(64);
    let c = Client::new(
        to_client,
        from_client,
        sh,
        NewClientData { uuid, username: format!("player{uuid}"), textures: None },
    );
    (c, rx, tx)
}

const MAX_PLAYERS: usize = 10;

#[test]
fn a_client_that_finds_the_game_full_is_turned_away() {
    let sh = shared();
    let mut list = PlayerList::new();
    let mut count = MAX_PLAYERS;
    let (mut c, rx, _tx) = client(&sh, 1);
    assert!(!join_game(&mut c, &mut count, MAX_PLAYERS, &mut list));
    assert!(c.is_disconnected());
    assert_eq!(count, MAX_PLAYERS);
    assert!(!list.contains(1));
    assert!(list.entries.is_empty());
    let got: Vec<S2cPlayPacket> = rx.drain().collect();
    assert_eq!(
        got,
        vec![S2cPlayPacket::Disconnect { reason: "The server is full!".to_string() }]
    );
    assert_eq!(server_full_reason(), "The server is full!".to_string());
}

#[test]
fn a_client_that_finds_room_is_counted_and_listed() {
    let sh = shared();
    let mut list = PlayerList::new();
    let mut count = MAX_PLAYERS - 1;
    let (mut c, rx, _tx) = client(&sh, 1);
    c.set_game_mode(GameMode::Creative);
    assert!(join_game(&mut c, &mut count, MAX_PLAYERS, &mut list));
    assert!(!c.is_disconnected());
    assert_eq!(count, MAX_PLAYERS);
    assert!(list.contains(1));
    assert_eq!(list.entries[0].username, "player1");
    assert_eq!(list.entries[0].game_mode, GameMode::Creative);
    assert_eq!(list.entries[0].ping, 0);
    assert!(list.entries[0].created_this_tick);
    assert_eq!(rx.try_recv().ok(), None);

    let (mut d, _rx, _tx) = client(&sh, 2);
    assert!(!join_game(&mut d, &mut count, MAX_PLAYERS, &mut list));
    assert!(!list.contains(2));
    assert_eq!(list.entries.len(), 1);
}

#[test]
fn a_game_for_nobody_is_always_full() {
    let sh = shared();
    let mut list = PlayerList::new();
    let mut count = 0;
    let (mut c, _rx, _tx) = client(&sh, 1);
    assert!(!join_game(&mut c, &mut count, 0, &mut list));
    assert_eq!(count, 0);
    let mut count = usize::MAX;
    let (mut c, _rx, _tx) = client(&sh, 1);
    assert!(!join_game(&mut c, &mut count, usize::MAX, &mut list));
    assert_eq!(count, usize::MAX);
}

#[test]
fn the_phases_of_a_tick() {
    let mut server = Server::new(shared());
    let w = server.worlds.insert(World::new(DimensionId(0))).ok().unwrap();
    let (mut c, rx, tx) = client(&server.shared, 1);
    c.spawn(w);
    let id = server.clients.insert(c).ok().unwrap();
    let e = server.entities.create_with_uuid(EntityKind::Zombie, 2).unwrap();
    server.entities.get_mut(e).unwrap().world = w;

    tx.send(C2sPlayPacket::Swing { hand: Hand::Main }).unwrap();
    server.ingress();
    assert_eq!(
        server.clients.get_mut(id).unwrap().pop_event(),
        Some(Event::ArmSwing(Hand::Main))
    );
    server.egress();
    server.sweep();
    assert_eq!(server.shared.current_tick, 2);
    let got: Vec<S2cPlayPacket> = rx.drain().collect();
    assert!(matches!(got[0], S2cPlayPacket::Login(_)));
    assert!(matches!(got[1], S2cPlayPacket::SpawnPosition { .. }));
    assert!(matches!(got[2], S2cPlayPacket::PlayerPosition { teleport_id: 0, .. }));
    assert!(matches!(got[3], S2cPlayPacket::AddEntity { entity_id: 1, uuid: 2, .. }));
    assert_eq!(got.len(), 4);
    assert_eq!(server.clients.get(id).unwrap().loaded_entities(), vec![e]);

    // The client confirms the teleport and walks; the zombie walks too.
    tx.send(C2sPlayPacket::AcceptTeleportation { teleport_id: 0 }).unwrap();
    tx.send(C2sPlayPacket::MovePlayerStatusOnly { on_ground: true }).unwrap();
    server.ingress();
    assert_eq!(server.clients.get(id).unwrap().pending_teleports(), 0);
    assert!(server.clients.get(id).unwrap().on_ground());
    server.entities.get_mut(e).unwrap().position.x = 4096;
    server.egress();
    server.sweep();
    let got: Vec<S2cPlayPacket> = rx.drain().collect();
    assert_eq!(
        got,
        vec![S2cPlayPacket::MoveEntityPosition {
            entity_id: 1,
            delta: valence::geometry::ShortVec3 { x: 4096, y: 0, z: 0 },
            on_ground: false,
        }]
    );
    assert_eq!(server.entities.get(e).unwrap().old_position.x, 4096);

    // Nothing happened: nothing is sent.
    server.ingress();
    assert_eq!(server.clients.get_mut(id).unwrap().pop_event(), None);
    server.egress();
    server.sweep();
    assert_eq!(rx.try_recv().ok(), None);
    assert_eq!(server.shared.current_tick, 4);
}

#[test]
fn the_clock_stops_at_the_end_of_time() {
    let mut server = Server::new(SharedServer { current_tick: i64::MAX - 1, ..shared() });
    server.sweep();
    assert_eq!(server.shared.current_tick, i64::MAX);
    server.sweep();
    assert_eq!(server.shared.current_tick, i64::MAX);
}

#[test]
fn keepalives_fall_due_every_eight_seconds() {
    let mut sh = shared();
    for (tick, due) in [(0, true), (1, false), (159, false), (160, true), (320, true), (-160, true), (-1, false)] {
        sh.current_tick = tick;
        assert_eq!(sh.keepalive_due(), due, "tick {tick}");
    }
    sh.tick_rate = 1;
    sh.current_tick = 8;
    assert!(sh.keepalive_due());
    sh.current_tick = 9;
    assert!(!sh.keepalive_due());
    sh.tick_rate = 0;
    sh.current_tick = 0;
    assert!(!sh.keepalive_due());
    sh.tick_rate = -20;
    assert!(!sh.keepalive_due());
    sh.tick_rate = i64::MAX;
    sh.current_tick = i64::MAX;
    assert!(!sh.keepalive_due());
    sh.current_tick = 0;
    assert!(sh.keepalive_due());
    assert_eq!(sh.tick_rate(), i64::MAX);
    assert_eq!(sh.current_tick(), 0);
}

#[test]
fn dimensions_by_id() {
    let sh = shared();
    assert_eq!(sh.dimension(DimensionId(0)), Some(Dimension::overworld()));
    assert_eq!(sh.dimension(DimensionId(1)), None);
    assert_eq!(Dimension::overworld().min_y, -64);
    assert_eq!(Dimension::overworld().height, 384);
}

fn biome(namespace: &str, path: &str, sky: u32) -> Biome {
    Biome {
        name: Ident::new(namespace, path),
        precipitation: BiomePrecipitation::Snow,
        sky_color: sky,
        water_fog_color: 1,
        fog_color: 2,
        water_color: 3,
        foliage_color: Some(4),
        grass_color: None,
    }
}

fn system_chat() -> Vec<ChatTypeEntry> {
    vec![ChatTypeEntry {
        name: ChatTypeName::System,
        id: 0,
        narration_priority: NarrationPriority::System,
    }]
}

#[test]
fn registry_codec_adds_plains_where_it_lacks() {
    let nether = Dimension {
        natural: false,
        ambient_light: 410,
        fixed_time: Some(18000),
        effects: DimensionEffects::TheNether,
        min_y: 0,
        height: 256,
    };
    let sh = SharedServer {
        tick_rate: 20,
        current_tick: 0,
        dimensions: vec![Dimension::overworld(), nether],
        biomes: vec![biome("valence", "default_biome", 9), biome("other", "plains", 10)],
    };
    let codec = make_registry_codec(&sh);
    assert_eq!(
        codec.dimension_types,
        vec![
            DimensionTypeEntry {
                name: DimensionTypeName(DimensionId(0)),
                id: 0,
                element: Dimension::overworld()
            },
            DimensionTypeEntry { name: DimensionTypeName(DimensionId(1)), id: 1, element: nether },
        ]
    );
    assert_eq!(
        codec.biomes,
        vec![
            BiomeEntry { id: 0, biome: biome("valence", "default_biome", 9) },
            BiomeEntry { id: 1, biome: biome("other", "plains", 10) },
            BiomeEntry { id: 2, biome: Biome::plains() },
        ]
    );
    assert_eq!(codec.chat_types, system_chat());
}

#[test]
fn registry_codec_leaves_a_configured_plains_alone() {
    let sh = SharedServer {
        tick_rate: 20,
        current_tick: 0,
        dimensions: vec![],
        biomes: vec![biome("minecraft", "plains", 9), biome("minecraft", "desert", 10)],
    };
    let codec = make_registry_codec(&sh);
    assert!(codec.dimension_types.is_empty());
    assert_eq!(
        codec.biomes,
        vec![
            BiomeEntry { id: 0, biome: biome("minecraft", "plains", 9) },
            BiomeEntry { id: 1, biome: biome("minecraft", "desert", 10) },
        ]
    );
    assert_eq!(codec.chat_types, system_chat());
}

#[test]
fn registry_codec_of_an_empty_configuration() {
    let sh = SharedServer { tick_rate: 20, current_tick: 0, dimensions: vec![], biomes: vec![] };
    let codec = make_registry_codec(&sh);
    assert!(codec.dimension_types.is_empty());
    assert_eq!(codec.biomes, vec![BiomeEntry { id: 0, biome: Biome::plains() }]);
    assert_eq!(codec.chat_types, system_chat());
}

#[test]
fn the_default_biome() {
    let b = Biome::plains();
    assert_eq!(b.name, Ident::new("minecraft", "plains"));
    assert!(b.name.is("minecraft", "plains"));
    assert!(!b.name.is("minecraft", "plain"));
    assert!(!b.name.is("valence", "plains"));
    assert_eq!(b.precipitation, BiomePrecipitation::Rain);
    assert_eq!(b.sky_color, 0x78a7ff);
    assert_eq!(b.water_fog_color, 0x050533);
    assert_eq!(b.fog_color, 0xc0d8ff);
    assert_eq!(b.water_color, 0x3f76e4);
    assert_eq!(b.foliage_color, None);
    assert_eq!(b.grass_color, None);
}

#[test]
fn names_as_text() {
    assert_eq!(DimensionName::Dimension(DimensionId(0)).to_text(), "valence:dimension_0");
    assert_eq!(DimensionName::Dimension(DimensionId(7)).to_text(), "valence:dimension_7");
    assert_eq!(DimensionName::Dimension(DimensionId(10)).to_text(), "valence:dimension_10");
    assert_eq!(DimensionName::Dimension(DimensionId(105)).to_text(), "valence:dimension_105");
    assert_eq!(DimensionName::Dimension(DimensionId(65535)).to_text(), "valence:dimension_65535");
    assert_eq!(DimensionName::Dummy.to_text(), "valence:dummy_dimension");
    assert_eq!(DimensionTypeName(DimensionId(0)).to_text(), "valence:dimension_type_0");
    assert_eq!(DimensionTypeName(DimensionId(4321)).to_text(), "valence:dimension_type_4321");
}
