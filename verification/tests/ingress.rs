use valence::c2s::{
    BlockFace, C2sPlayPacket, ChatMode, DisplayedSkinParts, Hand, InteractKind, MainHand,
    PlayerActionStatus, PlayerCommandId,
};
use valence::client::{Client, NewClientData};
use valence::entity::{Entities, EntityId, EntityKind};
use valence::event::{DiggingStatus, Event, InteractWithEntityKind, Settings};
use valence::fixed::ONE;
use valence::geometry::{BlockPos, Vec3};
use valence::outbox::Outbox;
use valence::s2c::S2cPlayPacket;
use valence::server::{Dimension, SharedServer};
use valence::slotmap::Key;
use valence::world::{World, Worlds};

fn shared(tick: i64) -> SharedServer {
    SharedServer {
        tick_rate: 20,
        current_tick: tick,
        dimensions: vec![Dimension::overworld()],
        biomes: vec![],
    }
}

fn client() -> (Client, flume::Receiver<S2cPlayPacket>, flume::Sender<C2sPlayPacket>) {
    let (to_client, from_server) = flume::bounded(256);
    let (to_server, from_client) = flume::bounded(256);
    let c = Client::new(
        to_client,
        from_client,
        &shared(1),
        NewClientData { uuid: 7, username: "carol".to_string(), textures: None },
    );
    (c, from_server, to_server)
}

fn blocks(x: i64, y: i64, z: i64) -> Vec3 {
    Vec3 { x: x * ONE, y: y * ONE, z: z * ONE }
}

fn events(c: &mut Client) -> Vec<Event> {
    let mut v = Vec::new();
    while let Some(e) = c.pop_event() {
        v.push(e);
    }
    v
}

#[test]
fn a_new_client() {
    let (mut c, _rx, _tx) = client();
    assert_eq!(c.created_tick(), 1);
    assert_eq!(c.uuid(), 7);
    assert_eq!(c.username(), "carol");
    assert_eq!(c.username_owned(), "carol".to_string());
    assert_eq!(c.textures(), None);
    assert!(!c.is_sneaking());
    assert!(!c.is_sprinting());
    assert!(!c.on_ground());
    assert!(!c.is_hardcore());
    assert!(!c.is_disconnected());
    assert_eq!(c.position(), blocks(0, 0, 0));
    assert_eq!(c.velocity(), blocks(0, 0, 0));
    assert_eq!(c.yaw(), 0);
    assert_eq!(c.pitch(), 0);
    assert_eq!(c.pending_teleports(), 0);
    assert_eq!(c.spawn_position(), BlockPos::new(0, 0, 0));
    assert_eq!(c.death_location(), None);
    assert_eq!(c.game_mode(), valence::event::GameMode::Survival);
    assert_eq!(c.max_view_distance(), 16);
    assert_eq!(c.view_distance(), 2);
    assert_eq!(c.attack_speed(), 4 * ONE);
    assert_eq!(c.movement_speed(), 2867);
    assert_eq!(c.settings(), None);
    assert_eq!(c.pop_event(), None);
    assert!(c.loaded_chunks().is_empty());
    assert!(c.loaded_entities().is_empty());
    assert_eq!(c.world(), valence::world::WorldId(Key::null()));
    assert!(c.player().initial.is_empty());
}

#[test]
fn teleport_round_trip() {
    let (mut c, _rx, _tx) = client();
    let entities = Entities::new();
    c.teleport(blocks(1, 2, 3), 45 * ONE, -10 * ONE);
    assert_eq!(c.pending_teleports(), 1);
    assert_eq!(c.position(), blocks(1, 2, 3));
    assert_eq!(c.yaw(), 45 * ONE);
    assert_eq!(c.pitch(), -10 * ONE);
    c.handle_serverbound_packet(&entities, C2sPlayPacket::AcceptTeleportation { teleport_id: 0 });
    assert_eq!(c.pending_teleports(), 0);
    assert_eq!(c.position(), blocks(1, 2, 3));
    assert!(!c.is_disconnected());
}

#[test]
fn teleport_zeroes_the_velocity() {
    let (mut c, _rx, _tx) = client();
    let entities = Entities::new();
    c.handle_serverbound_packet(
        &entities,
        C2sPlayPacket::MovePlayerPosition { position: blocks(1, 0, 0), on_ground: true },
    );
    assert_eq!(c.velocity(), blocks(20, 0, 0));
    c.teleport(blocks(5, 5, 5), 0, 0);
    assert_eq!(c.velocity(), blocks(0, 0, 0));
}

#[test]
fn teleport_confirmation_with_the_wrong_id_disconnects() {
    let (mut c, _rx, _tx) = client();
    let entities = Entities::new();
    c.teleport(blocks(1, 2, 3), 0, 0);
    c.handle_serverbound_packet(&entities, C2sPlayPacket::AcceptTeleportation { teleport_id: 1 });
    assert!(c.is_disconnected());
    assert_eq!(c.pending_teleports(), 1);
}

#[test]
fn teleport_confirmation_that_nothing_awaits_disconnects() {
    let (mut c, _rx, _tx) = client();
    let entities = Entities::new();
    c.handle_serverbound_packet(&entities, C2sPlayPacket::AcceptTeleportation { teleport_id: 0 });
    assert!(c.is_disconnected());
    assert_eq!(c.pending_teleports(), 0);
}

#[test]
fn teleport_confirmations_come_oldest_first() {
    let sh = shared(1);
    let entities = Entities::new();
    let mut worlds = Worlds::new();
    let w = worlds.insert(World::new(valence::ident::DimensionId(0))).ok().unwrap();
    let (mut c, _rx, _tx) = client();
    c.spawn(w);
    let mut out = Outbox::new();
    c.tick(&sh, &entities, &worlds, 1, &mut out);
    c.teleport(blocks(9, 9, 9), 0, 0);
    assert_eq!(c.pending_teleports(), 2);
    // The newest first is out of turn.
    let (mut d, _rx2, _tx2) = client();
    d.spawn(w);
    let mut out2 = Outbox::new();
    d.tick(&sh, &entities, &worlds, 1, &mut out2);
    d.teleport(blocks(9, 9, 9), 0, 0);
    d.handle_serverbound_packet(&entities, C2sPlayPacket::AcceptTeleportation { teleport_id: 1 });
    assert!(d.is_disconnected());
    // The oldest first, then the next.
    c.handle_serverbound_packet(&entities, C2sPlayPacket::AcceptTeleportation { teleport_id: 0 });
    assert_eq!(c.pending_teleports(), 1);
    c.handle_serverbound_packet(&entities, C2sPlayPacket::AcceptTeleportation { teleport_id: 1 });
    assert_eq!(c.pending_teleports(), 0);
    assert!(!c.is_disconnected());
}

#[test]
fn movement_is_ignored_while_a_teleport_is_pending() {
    let (mut c, _rx, _tx) = client();
    let entities = Entities::new();
    c.teleport(blocks(1, 2, 3), 0, 0);
    for pkt in [
        C2sPlayPacket::MovePlayerPosition { position: blocks(50, 50, 50), on_ground: true },
        C2sPlayPacket::MovePlayerPositionAndRotation {
            position: blocks(50, 50, 50),
            yaw: ONE,
            pitch: ONE,
            on_ground: true,
        },
        C2sPlayPacket::MovePlayerRotation { yaw: ONE, pitch: ONE, on_ground: true },
        C2sPlayPacket::MovePlayerStatusOnly { on_ground: true },
        C2sPlayPacket::MoveVehicle { position: blocks(50, 50, 50), yaw: ONE, pitch: ONE },
    ] {
        c.handle_serverbound_packet(&entities, pkt);
    }
    assert_eq!(c.position(), blocks(1, 2, 3));
    assert_eq!(c.yaw(), 0);
    assert!(!c.on_ground());
    assert_eq!(c.pop_event(), None);
}

#[test]
fn movement_gives_an_event_and_a_velocity() {
    let (mut c, _rx, _tx) = client();
    let entities = Entities::new();
    c.handle_serverbound_packet(
        &entities,
        C2sPlayPacket::MovePlayerPositionAndRotation {
            position: Vec3 { x: 100, y: -200, z: 4096 },
            yaw: 90 * ONE,
            pitch: 10 * ONE,
            on_ground: true,
        },
    );
    assert_eq!(c.position(), Vec3 { x: 100, y: -200, z: 4096 });
    assert_eq!(c.velocity(), Vec3 { x: 2000, y: -4000, z: 81920 });
    assert!(c.on_ground());
    assert_eq!(
        events(&mut c),
        vec![Event::Movement {
            old_position: blocks(0, 0, 0),
            old_velocity: blocks(0, 0, 0),
            old_yaw: 0,
            old_pitch: 0,
            old_on_ground: false,
            new_position: Vec3 { x: 100, y: -200, z: 4096 },
            new_velocity: Vec3 { x: 2000, y: -4000, z: 81920 },
            new_yaw: 90 * ONE,
            new_pitch: 10 * ONE,
            new_on_ground: true,
        }]
    );
}

#[test]
fn the_four_movement_packets_and_the_vehicle() {
    let (mut c, _rx, _tx) = client();
    let entities = Entities::new();
    c.handle_serverbound_packet(
        &entities,
        C2sPlayPacket::MovePlayerPosition { position: blocks(1, 0, 0), on_ground: true },
    );
    assert_eq!((c.position(), c.yaw(), c.pitch(), c.on_ground()), (blocks(1, 0, 0), 0, 0, true));
    c.handle_serverbound_packet(
        &entities,
        C2sPlayPacket::MovePlayerRotation { yaw: 5, pitch: 6, on_ground: false },
    );
    assert_eq!((c.position(), c.yaw(), c.pitch(), c.on_ground()), (blocks(1, 0, 0), 5, 6, false));
    assert_eq!(c.velocity(), blocks(0, 0, 0));
    c.handle_serverbound_packet(&entities, C2sPlayPacket::MovePlayerStatusOnly { on_ground: true });
    assert_eq!((c.position(), c.yaw(), c.pitch(), c.on_ground()), (blocks(1, 0, 0), 5, 6, true));
    c.handle_serverbound_packet(
        &entities,
        C2sPlayPacket::MoveVehicle { position: blocks(2, 0, 0), yaw: 7, pitch: 8 },
    );
    assert_eq!((c.position(), c.yaw(), c.pitch(), c.on_ground()), (blocks(2, 0, 0), 7, 8, true));
    assert_eq!(events(&mut c).len(), 4);
}

#[test]
fn movement_velocity_saturates() {
    let (mut c, _rx, _tx) = client();
    let entities = Entities::new();
    c.handle_serverbound_packet(
        &entities,
        C2sPlayPacket::MovePlayerPosition {
            position: Vec3 { x: i64::MAX, y: i64::MIN, z: 0 },
            on_ground: false,
        },
    );
    assert_eq!(c.velocity(), Vec3 { x: i64::MAX, y: i64::MIN, z: 0 });
}

#[test]
fn keepalive_that_nothing_awaits_disconnects() {
    let (mut c, _rx, _tx) = client();
    let entities = Entities::new();
    c.handle_serverbound_packet(&entities, C2sPlayPacket::KeepAlive { id: 0 });
    assert!(c.is_disconnected());
}

#[test]
fn keepalive_with_the_wrong_id_disconnects() {
    let mut sh = shared(1);
    let entities = Entities::new();
    let mut worlds = Worlds::new();
    let w = worlds.insert(World::new(valence::ident::DimensionId(0))).ok().unwrap();
    let (mut c, _rx, _tx) = client();
    c.spawn(w);
    sh.current_tick = 160;
    let mut c2 = c;
    // Not the client's first tick.
    let mut out = Outbox::new();
    c2.tick(&sh, &entities, &worlds, 31337, &mut out);
    assert!(out.packets.contains(&S2cPlayPacket::KeepAlive { id: 31337 }));
    c2.handle_serverbound_packet(&entities, C2sPlayPacket::KeepAlive { id: 31338 });
    assert!(c2.is_disconnected());
}

#[test]
fn keepalive_answered_twice_disconnects() {
    let mut sh = shared(1);
    let entities = Entities::new();
    let mut worlds = Worlds::new();
    let w = worlds.insert(World::new(valence::ident::DimensionId(0))).ok().unwrap();
    let (mut c, _rx, _tx) = client();
    c.spawn(w);
    sh.current_tick = 160;
    let mut out = Outbox::new();
    c.tick(&sh, &entities, &worlds, -5, &mut out);
    c.handle_serverbound_packet(&entities, C2sPlayPacket::KeepAlive { id: -5 });
    assert!(!c.is_disconnected());
    c.handle_serverbound_packet(&entities, C2sPlayPacket::KeepAlive { id: -5 });
    assert!(c.is_disconnected());
}

#[test]
fn chat_and_swing_and_boat() {
    let (mut c, _rx, _tx) = client();
    let entities = Entities::new();
    c.handle_serverbound_packet(
        &entities,
        C2sPlayPacket::Chat { message: "hello".to_string(), timestamp: 1234 },
    );
    c.handle_serverbound_packet(&entities, C2sPlayPacket::Swing { hand: Hand::Off });
    c.handle_serverbound_packet(
        &entities,
        C2sPlayPacket::PaddleBoat { left_paddle_turning: true, right_paddle_turning: false },
    );
    assert_eq!(
        events(&mut c),
        vec![
            Event::ChatMessage { message: "hello".to_string(), timestamp: 1234 },
            Event::ArmSwing(Hand::Off),
            Event::SteerBoat { left_paddle_turning: true, right_paddle_turning: false },
        ]
    );
}

fn information(view_distance: u8, locale: &str) -> C2sPlayPacket {
    C2sPlayPacket::ClientInformation {
        locale: locale.to_string(),
        view_distance,
        chat_mode: ChatMode::Enabled,
        chat_colors: true,
        displayed_skin_parts: DisplayedSkinParts(0x7f),
        main_hand: MainHand::Right,
        allow_server_listings: false,
    }
}

fn settings(view_distance: u8, locale: &str) -> Settings {
    Settings {
        locale: locale.to_string(),
        view_distance,
        chat_mode: ChatMode::Enabled,
        chat_colors: true,
        main_hand: MainHand::Right,
        displayed_skin_parts: DisplayedSkinParts(0x7f),
        allow_server_listings: false,
    }
}

#[test]
fn client_information_replaces_the_settings() {
    let (mut c, _rx, _tx) = client();
    let entities = Entities::new();
    c.handle_serverbound_packet(&entities, information(10, "en_US"));
    assert_eq!(c.settings(), Some(&settings(10, "en_US")));
    assert_eq!(c.view_distance(), 10);
    c.handle_serverbound_packet(&entities, information(40, "de_DE"));
    assert_eq!(c.settings(), Some(&settings(40, "de_DE")));
    assert_eq!(c.view_distance(), 16);
    assert_eq!(
        events(&mut c),
        vec![
            Event::SettingsChanged(None),
            Event::SettingsChanged(Some(settings(10, "en_US"))),
        ]
    );
}

#[test]
fn view_distance_is_the_smaller_of_wanted_and_allowed() {
    let (mut c, _rx, _tx) = client();
    let entities = Entities::new();
    c.set_max_view_distance(1);
    assert_eq!(c.max_view_distance(), 2);
    c.set_max_view_distance(200);
    assert_eq!(c.max_view_distance(), 32);
    c.set_max_view_distance(8);
    assert_eq!(c.max_view_distance(), 8);
    assert_eq!(c.view_distance(), 2);
    c.handle_serverbound_packet(&entities, information(5, "en_US"));
    assert_eq!(c.view_distance(), 5);
    c.handle_serverbound_packet(&entities, information(12, "en_US"));
    assert_eq!(c.view_distance(), 8);
    c.handle_serverbound_packet(&entities, information(0, "en_US"));
    assert_eq!(c.view_distance(), 0);
}

#[test]
fn interact_resolves_the_entity() {
    let (mut c, _rx, _tx) = client();
    let mut entities = Entities::new();
    let a = entities.create_with_uuid(EntityKind::Zombie, 1).unwrap();
    let b = entities.create_with_uuid(EntityKind::Item, 2).unwrap();
    assert_eq!(a.to_network_id(), 1);
    assert_eq!(b.to_network_id(), 2);
    c.handle_serverbound_packet(
        &entities,
        C2sPlayPacket::Interact { entity_id: 2, kind: InteractKind::Attack, sneaking: true },
    );
    c.handle_serverbound_packet(
        &entities,
        C2sPlayPacket::Interact {
            entity_id: 1,
            kind: InteractKind::InteractAt { target: blocks(0, 1, 0), hand: Hand::Main },
            sneaking: false,
        },
    );
    c.handle_serverbound_packet(
        &entities,
        C2sPlayPacket::Interact {
            entity_id: 1,
            kind: InteractKind::Interact(Hand::Off),
            sneaking: false,
        },
    );
    // No such entity: 0 is the client itself, 3 and -1 are nobody.
    for id in [0, 3, -1, i32::MIN, i32::MAX] {
        c.handle_serverbound_packet(
            &entities,
            C2sPlayPacket::Interact { entity_id: id, kind: InteractKind::Attack, sneaking: false },
        );
    }
    assert_eq!(
        events(&mut c),
        vec![
            Event::InteractWithEntity {
                id: b,
                sneaking: true,
                kind: InteractWithEntityKind::Attack
            },
            Event::InteractWithEntity {
                id: a,
                sneaking: false,
                kind: InteractWithEntityKind::InteractAt {
                    target: blocks(0, 1, 0),
                    hand: Hand::Main
                },
            },
            Event::InteractWithEntity {
                id: a,
                sneaking: false,
                kind: InteractWithEntityKind::Interact(Hand::Off),
            },
        ]
    );
}

#[test]
fn interact_with_a_deleted_entity_gives_no_event() {
    let (mut c, _rx, _tx) = client();
    let mut entities = Entities::new();
    let a = entities.create_with_uuid(EntityKind::Zombie, 1).unwrap();
    assert!(entities.delete(a));
    c.handle_serverbound_packet(
        &entities,
        C2sPlayPacket::Interact { entity_id: 1, kind: InteractKind::Attack, sneaking: false },
    );
    assert_eq!(c.pop_event(), None);
    // The network identifier is used again, for another entity.
    let b = entities.create_with_uuid(EntityKind::Zombie, 2).unwrap();
    assert_eq!(b.to_network_id(), 1);
    assert_ne!(a, b);
    c.handle_serverbound_packet(
        &entities,
        C2sPlayPacket::Interact { entity_id: 1, kind: InteractKind::Attack, sneaking: false },
    );
    assert_eq!(
        c.pop_event(),
        Some(Event::InteractWithEntity {
            id: b,
            sneaking: false,
            kind: InteractWithEntityKind::Attack
        })
    );
}

fn command(action_id: PlayerCommandId, jump_boost: i32) -> C2sPlayPacket {
    C2sPlayPacket::PlayerCommand { entity_id: 0, action_id, jump_boost }
}

#[test]
fn sneaking_and_sprinting_give_events_on_transitions_only() {
    let (mut c, _rx, _tx) = client();
    let entities = Entities::new();
    for action in [
        PlayerCommandId::StopSneaking,
        PlayerCommandId::StartSneaking,
        PlayerCommandId::StartSneaking,
        PlayerCommandId::StopSprinting,
        PlayerCommandId::StartSprinting,
        PlayerCommandId::StartSprinting,
    ] {
        c.handle_serverbound_packet(&entities, command(action, 0));
    }
    assert!(c.is_sneaking());
    assert!(c.is_sprinting());
    for action in [
        PlayerCommandId::StopSneaking,
        PlayerCommandId::StopSneaking,
        PlayerCommandId::StopSprinting,
        PlayerCommandId::StopSprinting,
    ] {
        c.handle_serverbound_packet(&entities, command(action, 0));
    }
    assert!(!c.is_sneaking());
    assert!(!c.is_sprinting());
    assert_eq!(
        events(&mut c),
        vec![
            Event::StartSneaking,
            Event::StartSprinting,
            Event::StopSneaking,
            Event::StopSprinting,
        ]
    );
}

#[test]
fn the_other_player_commands() {
    let (mut c, _rx, _tx) = client();
    let entities = Entities::new();
    c.handle_serverbound_packet(&entities, command(PlayerCommandId::LeaveBed, 0));
    c.handle_serverbound_packet(&entities, command(PlayerCommandId::LeaveBed, 0));
    c.handle_serverbound_packet(&entities, command(PlayerCommandId::OpenHorseInventory, 0));
    c.handle_serverbound_packet(&entities, command(PlayerCommandId::StartFlyingWithElytra, 0));
    assert_eq!(
        events(&mut c),
        vec![
            Event::LeaveBed,
            Event::LeaveBed,
            Event::OpenHorseInventory,
            Event::StartFlyingWithElytra,
        ]
    );
}

#[test]
fn jumping_with_a_horse_gives_events_on_transitions_only() {
    let (mut c, _rx, _tx) = client();
    let entities = Entities::new();
    // Not jumping: a stop is redundant.
    c.handle_serverbound_packet(&entities, command(PlayerCommandId::StopJumpWithHorse, 0));
    c.handle_serverbound_packet(&entities, command(PlayerCommandId::StartJumpWithHorse, 55));
    // Jumping: a start is redundant, whatever its boost.
    c.handle_serverbound_packet(&entities, command(PlayerCommandId::StartJumpWithHorse, 70));
    c.handle_serverbound_packet(&entities, command(PlayerCommandId::StartJumpWithHorse, 55));
    c.handle_serverbound_packet(&entities, command(PlayerCommandId::StopJumpWithHorse, 0));
    c.handle_serverbound_packet(&entities, command(PlayerCommandId::StopJumpWithHorse, 0));
    c.handle_serverbound_packet(&entities, command(PlayerCommandId::StartJumpWithHorse, 1));
    assert_eq!(
        events(&mut c),
        vec![
            Event::StartJumpWithHorse { jump_boost: 55 },
            Event::StopJumpWithHorse,
            Event::StartJumpWithHorse { jump_boost: 1 },
        ]
    );
}

#[test]
fn the_jump_boost_is_held_to_its_range() {
    for (raw, held) in [(0, 0), (100, 100), (101, 100), (i32::MAX, 100), (-3, 0), (i32::MIN, 0)] {
        let (mut c, _rx, _tx) = client();
        let entities = Entities::new();
        c.handle_serverbound_packet(&entities, command(PlayerCommandId::StartJumpWithHorse, raw));
        assert_eq!(events(&mut c), vec![Event::StartJumpWithHorse { jump_boost: held }]);
    }
}

fn action(status: PlayerActionStatus, sequence: i32) -> C2sPlayPacket {
    C2sPlayPacket::PlayerAction {
        status,
        location: BlockPos::new(1, 2, 3),
        face: BlockFace::Top,
        sequence,
    }
}

#[test]
fn digging_gives_events_and_acknowledgements() {
    let sh = shared(2);
    let entities = Entities::new();
    let mut worlds = Worlds::new();
    let w = worlds.insert(World::new(valence::ident::DimensionId(0))).ok().unwrap();
    let (mut c, _rx, _tx) = client();
    c.spawn(w);
    c.handle_serverbound_packet(&entities, action(PlayerActionStatus::StartedDigging, 5));
    c.handle_serverbound_packet(&entities, action(PlayerActionStatus::CancelledDigging, 0));
    c.handle_serverbound_packet(&entities, action(PlayerActionStatus::FinishedDigging, 6));
    c.handle_serverbound_packet(&entities, action(PlayerActionStatus::DropItem, 7));
    c.handle_serverbound_packet(&entities, action(PlayerActionStatus::DropItemStack, 0));
    c.handle_serverbound_packet(&entities, action(PlayerActionStatus::SwapItemInHand, 8));
    c.handle_serverbound_packet(&entities, action(PlayerActionStatus::ShootArrowOrFinishEating, 9));
    let dig = |status| Event::Digging { status, position: BlockPos::new(1, 2, 3), face: BlockFace::Top };
    assert_eq!(
        events(&mut c),
        vec![dig(DiggingStatus::Start), dig(DiggingStatus::Cancel), dig(DiggingStatus::Finish)]
    );
    let mut out = Outbox::new();
    c.tick(&sh, &entities, &worlds, 0, &mut out);
    let acks: Vec<i32> = out
        .packets
        .iter()
        .filter_map(|p| match p {
            S2cPlayPacket::BlockChangeAck { sequence } => Some(*sequence),
            _ => None,
        })
        .collect();
    // Every sequence number is acknowledged, 0 too, in the order it came.
    assert_eq!(acks, vec![5, 0, 6, 7, 0, 8, 9]);
    // Acknowledged once.
    let mut out = Outbox::new();
    c.tick(&sh, &entities, &worlds, 0, &mut out);
    assert!(out.packets.iter().all(|p| !matches!(p, S2cPlayPacket::BlockChangeAck { .. })));
}

#[test]
fn packets_that_are_not_handled_change_nothing() {
    let (mut c, _rx, _tx) = client();
    let entities = Entities::new();
    for pkt in [
        C2sPlayPacket::BlockEntityTagQuery,
        C2sPlayPacket::ChangeDifficulty,
        C2sPlayPacket::ChatCommand,
        C2sPlayPacket::ChatPreview,
        C2sPlayPacket::ClientCommand,
        C2sPlayPacket::CommandSuggestion,
        C2sPlayPacket::ContainerButtonClick,
        C2sPlayPacket::ContainerClose,
        C2sPlayPacket::CustomPayload,
        C2sPlayPacket::EditBook,
        C2sPlayPacket::EntityTagQuery,
        C2sPlayPacket::JigsawGenerate,
        C2sPlayPacket::LockDifficulty,
        C2sPlayPacket::PickItem,
        C2sPlayPacket::PlaceRecipe,
        C2sPlayPacket::PlayerAbilities,
        C2sPlayPacket::PlayerInput,
        C2sPlayPacket::Pong,
        C2sPlayPacket::RecipeBookChangeSettings,
        C2sPlayPacket::RecipeBookSeenRecipe,
        C2sPlayPacket::RenameItem,
        C2sPlayPacket::ResourcePack,
        C2sPlayPacket::SeenAdvancements,
        C2sPlayPacket::SelectTrade,
        C2sPlayPacket::SetBeacon,
        C2sPlayPacket::SetCarriedItem,
        C2sPlayPacket::SetCommandBlock,
        C2sPlayPacket::SetCommandBlockMinecart,
        C2sPlayPacket::SetCreativeModeSlot,
        C2sPlayPacket::SetJigsawBlock,
        C2sPlayPacket::SetStructureBlock,
        C2sPlayPacket::SignUpdate,
        C2sPlayPacket::TeleportToEntity,
        C2sPlayPacket::UseItemOn,
        C2sPlayPacket::UseItem,
    ] {
        c.handle_serverbound_packet(&entities, pkt);
    }
    assert_eq!(c.pop_event(), None);
    assert!(!c.is_disconnected());
    assert_eq!(c.position(), blocks(0, 0, 0));
}

#[test]
fn ingress_takes_what_waits_and_forgets_the_last_tick() {
    let (mut c, _rx, tx) = client();
    let entities = Entities::new();
    tx.send(C2sPlayPacket::Swing { hand: Hand::Main }).unwrap();
    tx.send(C2sPlayPacket::Swing { hand: Hand::Off }).unwrap();
    assert_eq!(tx.len(), 2);
    c.handle_serverbound_packets(&entities);
    assert_eq!(tx.len(), 0);
    tx.send(C2sPlayPacket::Chat { message: "x".to_string(), timestamp: 0 }).unwrap();
    // The events of the last tick are gone when the next ingress begins.
    c.handle_serverbound_packets(&entities);
    assert_eq!(
        events(&mut c),
        vec![Event::ChatMessage { message: "x".to_string(), timestamp: 0 }]
    );
    c.handle_serverbound_packets(&entities);
    assert_eq!(c.pop_event(), None);
}

#[test]
fn ingress_keeps_to_its_budget() {
    let (c, _rx, tx) = client();
    for _ in 0..10 {
        tx.send(C2sPlayPacket::Swing { hand: Hand::Main }).unwrap();
    }
    assert_eq!(c.take_inbound(0).len(), 0);
    assert_eq!(c.take_inbound(3).len(), 3);
    assert_eq!(tx.len(), 7);
    assert_eq!(c.take_inbound(100).len(), 7);
    assert_eq!(c.take_inbound(100).len(), 0);
}

#[test]
fn handle_packets_handles_them_in_order() {
    let (mut c, _rx, _tx) = client();
    let entities = Entities::new();
    c.handle_serverbound_packet(&entities, C2sPlayPacket::Swing { hand: Hand::Main });
    c.handle_packets(
        &entities,
        vec![
            command(PlayerCommandId::StartSneaking, 0),
            C2sPlayPacket::MovePlayerStatusOnly { on_ground: true },
            command(PlayerCommandId::StopSneaking, 0),
        ],
    );
    let got = events(&mut c);
    assert_eq!(got.len(), 3);
    assert_eq!(got[0], Event::StartSneaking);
    assert!(matches!(got[1], Event::Movement { new_on_ground: true, .. }));
    assert_eq!(got[2], Event::StopSneaking);
}

#[test]
fn events_come_out_first_in_first_out() {
    let (mut c, _rx, _tx) = client();
    let entities = Entities::new();
    c.handle_serverbound_packet(&entities, C2sPlayPacket::Swing { hand: Hand::Main });
    c.handle_serverbound_packet(&entities, C2sPlayPacket::Swing { hand: Hand::Off });
    assert_eq!(c.pop_event(), Some(Event::ArmSwing(Hand::Main)));
    assert_eq!(c.pop_event(), Some(Event::ArmSwing(Hand::Off)));
    assert_eq!(c.pop_event(), None);
}

#[test]
fn the_default_entity_id_is_nobody() {
    let entities = Entities::new();
    assert!(entities.get(EntityId::default()).is_none());
    assert_eq!(EntityId::default(), EntityId(Key::null()));
}

#[test]
fn queued_events_come_out_behind_those_that_wait() {
    let (mut c, _rx, _tx) = client();
    let entities = Entities::new();
    c.handle_serverbound_packet(&entities, C2sPlayPacket::Swing { hand: Hand::Main });
    c.push_event(Event::RespawnRequest);
    assert_eq!(events(&mut c), vec![Event::ArmSwing(Hand::Main), Event::RespawnRequest]);
}

#[test]
fn the_null_client_id_is_the_default() {
    assert_eq!(valence::client::ClientId::null(), valence::client::ClientId::default());
    assert_eq!(valence::client::ClientId::null().0, Key::null());
}
