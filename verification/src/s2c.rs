//! The packets the server sends during play.

use vstd::prelude::*;
use crate::entity::EntityKind;
use crate::event::GameMode;
use crate::fixed::Fixed;
use crate::geometry::{BlockPos, ShortVec3, Vec3};
use crate::ident::{DimensionName, DimensionTypeName};
use crate::registry::{RegistryCodec, RegistryCodecView};

verus! {

/// A piece of chat text.
pub type Text = String;

/// Why a game-event packet is sent.
#[derive(Clone, Copy, PartialEq, Eq, Debug, Structural)]
pub enum GameEventReason {
    NoRespawnBlockAvailable,
    EndRaining,
    BeginRaining,
    ChangeGameMode,
    WinGame,
    DemoEvent,
    ArrowHitPlayer,
    RainLevelChange,
    ThunderLevelChange,
    PlayPufferfishStingSound,
    PlayElderGuardianMobAppearance,
    EnableRespawnScreen,
}

/// An attribute of the client's own player.
#[derive(Clone, Copy, PartialEq, Eq, Debug, Structural)]
pub enum Attribute {
    /// `generic.attack_speed`.
    AttackSpeed,
    /// `generic.movement_speed`.
    MovementSpeed,
}

/// How a title fades in and out, in ticks.
#[derive(Clone, Copy, PartialEq, Eq, Debug, Structural)]
pub struct TitleAnimationTimes {
    pub fade_in: u32,
    pub stay: u32,
    pub fade_out: u32,
}

/// Where a client last died.
#[derive(Clone, Copy, PartialEq, Eq, Debug, Structural)]
pub struct DeathLocation {
    pub dimension: DimensionName,
    pub position: BlockPos,
}

/// What a client is told when it joins.
#[derive(Clone, PartialEq, Eq, Debug)]
pub struct Login {
    pub entity_id: i32,
    pub is_hardcore: bool,
    pub gamemode: GameMode,
    pub previous_gamemode: GameMode,
    pub dimension_names: Vec<DimensionName>,
    pub registry_codec: RegistryCodec,
    pub dimension_type_name: DimensionTypeName,
    pub dimension_name: DimensionName,
    pub hashed_seed: i64,
    pub max_players: i32,
    pub view_distance: i32,
    pub simulation_distance: i32,
    pub reduced_debug_info: bool,
    pub enable_respawn_screen: bool,
    pub is_debug: bool,
    pub is_flat: bool,
    pub last_death_location: Option<DeathLocation>,
}

/// What sends a client to a dimension anew.
#[derive(Clone, Copy, PartialEq, Eq, Debug, Structural)]
pub struct Respawn {
    pub dimension_type_name: DimensionTypeName,
    pub dimension_name: DimensionName,
    pub hashed_seed: i64,
    pub game_mode: GameMode,
    pub previous_game_mode: GameMode,
    pub is_debug: bool,
    pub is_flat: bool,
    pub copy_metadata: bool,
    pub last_death_location: Option<DeathLocation>,
}

/// A packet to a client in the play state.
#[allow(inconsistent_fields)]
#[derive(Clone, PartialEq, Eq, Debug)]
pub enum S2cPlayPacket {
    AddEntity {
        entity_id: i32,
        uuid: u128,
        kind: EntityKind,
        position: Vec3,
        pitch: u8,
        yaw: u8,
        head_yaw: u8,
        velocity: ShortVec3,
    },
    AddExperienceOrb { entity_id: i32, position: Vec3, count: i16 },
    AddPlayer { entity_id: i32, player_uuid: u128, position: Vec3, yaw: u8, pitch: u8 },
    Animate { entity_id: i32, animation: u8 },
    BlockChangeAck { sequence: i32 },
    BlockUpdate { location: BlockPos, block_id: u16 },
    ClearTitles { reset: bool },
    Disconnect { reason: Text },
    EntityEvent { entity_id: i32, entity_status: u8 },
    ForgetLevelChunk { chunk_x: i32, chunk_z: i32 },
    GameEvent { reason: GameEventReason, value: Fixed },
    KeepAlive { id: i64 },
    LevelChunkWithLight { chunk_x: i32, chunk_z: i32, blocks: Vec<u16> },
    Login(Login),
    MoveEntityPosition { entity_id: i32, delta: ShortVec3, on_ground: bool },
    MoveEntityPositionAndRotation {
        entity_id: i32,
        delta: ShortVec3,
        yaw: u8,
        pitch: u8,
        on_ground: bool,
    },
    MoveEntityRotation { entity_id: i32, yaw: u8, pitch: u8, on_ground: bool },
    PlayerInfoAddPlayer {
        uuid: u128,
        username: String,
        game_mode: GameMode,
        ping: i32,
        display_name: Option<Text>,
    },
    PlayerInfoRemovePlayer { uuid: u128 },
    PlayerInfoUpdateDisplayName { uuid: u128, display_name: Option<Text> },
    PlayerInfoUpdateGameMode { uuid: u128, game_mode: GameMode },
    PlayerInfoUpdateLatency { uuid: u128, ping: i32 },
    PlayerPosition {
        position: Vec3,
        yaw: Fixed,
        pitch: Fixed,
        /// Which of the five values are relative; none is.
        flags: u8,
        teleport_id: i32,
        dismount_vehicle: bool,
    },
    RemoveEntities { entities: Vec<i32> },
    Respawn(Respawn),
    RotateHead { entity_id: i32, head_yaw: u8 },
    SetChunkCacheCenter { chunk_x: i32, chunk_z: i32 },
    SetChunkCacheRadius { view_distance: i32 },
    SetEntityMetadata { entity_id: i32, metadata: Vec<u8> },
    SetEntityMotion { entity_id: i32, velocity: ShortVec3 },
    SetSubtitleText { subtitle_text: Text },
    SetTitleAnimationTimes(TitleAnimationTimes),
    SetTitleText { text: Text },
    SpawnPosition { location: BlockPos, angle: Fixed },
    SystemChat { chat: Text, kind: i32 },
    TeleportEntity { entity_id: i32, position: Vec3, yaw: u8, pitch: u8, on_ground: bool },
    UpdateAttributes { entity_id: i32, key: Attribute, value: Fixed },
}

/// What a [`Login`] is in contracts.
#[verifier::ext_equal]
pub struct LoginView {
    pub entity_id: i32,
    pub is_hardcore: bool,
    pub gamemode: GameMode,
    pub previous_gamemode: GameMode,
    pub dimension_names: Seq<DimensionName>,
    pub registry_codec: RegistryCodecView,
    pub dimension_type_name: DimensionTypeName,
    pub dimension_name: DimensionName,
    pub hashed_seed: i64,
    pub max_players: i32,
    pub view_distance: i32,
    pub simulation_distance: i32,
    pub reduced_debug_info: bool,
    pub enable_respawn_screen: bool,
    pub is_debug: bool,
    pub is_flat: bool,
    pub last_death_location: Option<DeathLocation>,
}

/// What an [`S2cPlayPacket`] is in contracts: the packet itself, but for the
/// four whose lists are sequences here.
#[verifier::ext_equal]
pub enum S2cView {
    LevelChunkWithLight { chunk_x: i32, chunk_z: i32, blocks: Seq<u16> },
    Login(LoginView),
    RemoveEntities { entities: Seq<i32> },
    SetEntityMetadata { entity_id: i32, metadata: Seq<u8> },
    /// Any other packet.
    Plain(S2cPlayPacket),
}

impl View for Login {
    type V = LoginView;

    open spec fn view(&self) -> LoginView {
        LoginView {
            entity_id: self.entity_id,
            is_hardcore: self.is_hardcore,
            gamemode: self.gamemode,
            previous_gamemode: self.previous_gamemode,
            dimension_names: self.dimension_names@,
            registry_codec: self.registry_codec@,
            dimension_type_name: self.dimension_type_name,
            dimension_name: self.dimension_name,
            hashed_seed: self.hashed_seed,
            max_players: self.max_players,
            view_distance: self.view_distance,
            simulation_distance: self.simulation_distance,
            reduced_debug_info: self.reduced_debug_info,
            enable_respawn_screen: self.enable_respawn_screen,
            is_debug: self.is_debug,
            is_flat: self.is_flat,
            last_death_location: self.last_death_location,
        }
    }
}

impl View for S2cPlayPacket {
    type V = S2cView;

    open spec fn view(&self) -> S2cView {
        match *self {
            S2cPlayPacket::LevelChunkWithLight { chunk_x, chunk_z, blocks } => {
                S2cView::LevelChunkWithLight { chunk_x, chunk_z, blocks: blocks@ }
            },
            S2cPlayPacket::Login(login) => S2cView::Login(login@),
            S2cPlayPacket::RemoveEntities { entities } => S2cView::RemoveEntities {
                entities: entities@,
            },
            S2cPlayPacket::SetEntityMetadata { entity_id, metadata } => {
                S2cView::SetEntityMetadata { entity_id, metadata: metadata@ }
            },
            _ => S2cView::Plain(*self),
        }
    }
}

} // verus!
