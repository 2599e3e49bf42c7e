//! What a client did, as the game sees it.

use vstd::prelude::*;
use crate::c2s::{BlockFace, ChatMode, DisplayedSkinParts, Hand, MainHand};
use crate::entity::EntityId;
use crate::fixed::Fixed;
use crate::geometry::{BlockPos, Vec3};

verus! {

/// The game mode of a client.
#[derive(Clone, Copy, PartialEq, Eq, Debug, Structural)]
pub enum GameMode {
    Survival,
    Creative,
    Adventure,
    Spectator,
}

impl GameMode {
    /// The number the protocol knows the mode by.
    pub open spec fn id(self) -> i32 {
        match self {
            GameMode::Survival => 0,
            GameMode::Creative => 1,
            GameMode::Adventure => 2,
            GameMode::Spectator => 3,
        }
    }

    /// The number the protocol knows the mode by.
    pub fn to_id(self) -> (r: i32)
        ensures
            r == self.id(),
    {
        match self {
            GameMode::Survival => 0,
            GameMode::Creative => 1,
            GameMode::Adventure => 2,
            GameMode::Spectator => 3,
        }
    }
}

/// What a client told the server of itself.
#[derive(Clone, PartialEq, Eq, Debug)]
pub struct Settings {
    /// e.g. en_US
    pub locale: String,
    /// The client side render distance, in chunks, as the client reported it.
    pub view_distance: u8,
    pub chat_mode: ChatMode,
    /// `true` if the client has chat colors enabled, `false` otherwise.
    pub chat_colors: bool,
    pub main_hand: MainHand,
    pub displayed_skin_parts: DisplayedSkinParts,
    pub allow_server_listings: bool,
}

/// How far a block is dug.
#[derive(Clone, Copy, PartialEq, Eq, Debug, Structural)]
pub enum DiggingStatus {
    Start,
    Cancel,
    Finish,
}

/// How a client interacted with an entity.
#[derive(Clone, Copy, PartialEq, Eq, Debug, Structural)]
pub enum InteractWithEntityKind {
    Interact(Hand),
    InteractAt { target: Vec3, hand: Hand },
    Attack,
}

/// Something a client did since the last tick. Events live for one tick.
#[allow(inconsistent_fields)]
#[derive(Clone, PartialEq, Eq, Debug)]
pub enum Event {
    /// A regular message was sent to the chat.
    ChatMessage {
        /// The content of the message
        message: String,
        /// The time the message was sent, in milliseconds.
        timestamp: u64,
    },
    /// Settings were changed. The value in this variant is the previous client
    /// settings.
    SettingsChanged(Option<Settings>),
    /// The client moved.
    Movement {
        /// Absolute coordinates of the previous position.
        old_position: Vec3,
        /// Previous velocity in m/s.
        old_velocity: Vec3,
        /// The previous yaw (in degrees).
        old_yaw: Fixed,
        /// The previous pitch (in degrees).
        old_pitch: Fixed,
        /// If the client was previously on the ground.
        old_on_ground: bool,
        /// Absolute coodinates of the new position.
        new_position: Vec3,
        /// New velocity in m/s.
        new_velocity: Vec3,
        /// The new yaw (in degrees).
        new_yaw: Fixed,
        /// The new pitch (in degrees).
        new_pitch: Fixed,
        /// If the client is now on the ground.
        new_on_ground: bool,
    },
    StartSneaking,
    StopSneaking,
    StartSprinting,
    StopSprinting,
    /// A jump while on a horse started.
    StartJumpWithHorse {
        /// The power of the horse jump, in `0..=100`.
        jump_boost: u8,
    },
    /// A jump while on a horse stopped.
    StopJumpWithHorse,
    /// The client left a bed.
    LeaveBed,
    /// The inventory was opened while on a horse.
    OpenHorseInventory,
    StartFlyingWithElytra,
    ArmSwing(Hand),
    /// Left or right click interaction with an entity's hitbox.
    InteractWithEntity {
        /// The ID of the entity being interacted with.
        id: EntityId,
        /// If the client was sneaking during the interaction.
        sneaking: bool,
        /// The kind of interaction that occurred.
        kind: InteractWithEntityKind,
    },
    SteerBoat { left_paddle_turning: bool, right_paddle_turning: bool },
    Digging {
        /// The kind of digging event this is.
        status: DiggingStatus,
        /// The position of the block being broken.
        position: BlockPos,
        /// The face of the block being broken.
        face: BlockFace,
    },
    /// The client asks to be respawned after a death. The ingress turns no
    /// packet into this event: the layer that keeps track of deaths queues it.
    RespawnRequest,
}

} // verus!
