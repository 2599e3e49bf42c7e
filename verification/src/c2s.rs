//! The packets a client sends during play.

use vstd::prelude::*;
use crate::fixed::Fixed;
use crate::geometry::{BlockPos, Vec3};

verus! {

/// One of the two hands.
#[derive(Clone, Copy, PartialEq, Eq, Debug, Structural)]
pub enum Hand {
    Main,
    Off,
}

/// The hand a player favours.
#[derive(Clone, Copy, PartialEq, Eq, Debug, Structural)]
pub enum MainHand {
    Left,
    Right,
}

/// Which chat messages a client wants to see.
#[derive(Clone, Copy, PartialEq, Eq, Debug, Structural)]
pub enum ChatMode {
    Enabled,
    CommandsOnly,
    Hidden,
}

/// The parts of a skin that a client shows, one bit each.
#[derive(Clone, Copy, PartialEq, Eq, Debug, Structural)]
pub struct DisplayedSkinParts(pub u8);

/// A face of a block.
#[derive(Clone, Copy, PartialEq, Eq, Debug, Structural)]
pub enum BlockFace {
    Bottom,
    Top,
    North,
    South,
    West,
    East,
}

/// How a client interacts with an entity.
#[derive(Clone, Copy, PartialEq, Eq, Debug, Structural)]
pub enum InteractKind {
    Interact(Hand),
    Attack,
    InteractAt { target: Vec3, hand: Hand },
}

/// What a player-action packet reports.
#[derive(Clone, Copy, PartialEq, Eq, Debug, Structural)]
pub enum PlayerActionStatus {
    StartedDigging,
    CancelledDigging,
    FinishedDigging,
    DropItemStack,
    DropItem,
    ShootArrowOrFinishEating,
    SwapItemInHand,
}

/// What a player-command packet asks for.
#[derive(Clone, Copy, PartialEq, Eq, Debug, Structural)]
pub enum PlayerCommandId {
    StartSneaking,
    StopSneaking,
    LeaveBed,
    StartSprinting,
    StopSprinting,
    StartJumpWithHorse,
    StopJumpWithHorse,
    OpenHorseInventory,
    StartFlyingWithElytra,
}

/// A packet from a client in the play state. The variants without fields
/// are packets that the server takes no notice of.
#[allow(inconsistent_fields)]
#[derive(Clone, PartialEq, Eq, Debug)]
pub enum C2sPlayPacket {
    AcceptTeleportation { teleport_id: i32 },
    BlockEntityTagQuery,
    ChangeDifficulty,
    ChatCommand,
    /// A chat message and the time of its sending, in milliseconds.
    Chat { message: String, timestamp: u64 },
    ChatPreview,
    ClientCommand,
    ClientInformation {
        locale: String,
        view_distance: u8,
        chat_mode: ChatMode,
        chat_colors: bool,
        displayed_skin_parts: DisplayedSkinParts,
        main_hand: MainHand,
        allow_server_listings: bool,
    },
    CommandSuggestion,
    ContainerButtonClick,
    ContainerClose,
    CustomPayload,
    EditBook,
    EntityTagQuery,
    Interact { entity_id: i32, kind: InteractKind, sneaking: bool },
    JigsawGenerate,
    KeepAlive { id: i64 },
    LockDifficulty,
    MovePlayerPosition { position: Vec3, on_ground: bool },
    MovePlayerPositionAndRotation { position: Vec3, yaw: Fixed, pitch: Fixed, on_ground: bool },
    MovePlayerRotation { yaw: Fixed, pitch: Fixed, on_ground: bool },
    MovePlayerStatusOnly { on_ground: bool },
    MoveVehicle { position: Vec3, yaw: Fixed, pitch: Fixed },
    PaddleBoat { left_paddle_turning: bool, right_paddle_turning: bool },
    PickItem,
    PlaceRecipe,
    PlayerAbilities,
    PlayerAction { status: PlayerActionStatus, location: BlockPos, face: BlockFace, sequence: i32 },
    PlayerCommand { entity_id: i32, action_id: PlayerCommandId, jump_boost: i32 },
    PlayerInput,
    Pong,
    RecipeBookChangeSettings,
    RecipeBookSeenRecipe,
    RenameItem,
    ResourcePack,
    SeenAdvancements,
    SelectTrade,
    SetBeacon,
    SetCarriedItem,
    SetCommandBlock,
    SetCommandBlockMinecart,
    SetCreativeModeSlot,
    SetJigsawBlock,
    SetStructureBlock,
    SignUpdate,
    Swing { hand: Hand },
    TeleportToEntity,
    UseItemOn,
    UseItem,
}

} // verus!
