//! Connections to the server after logging in.

pub mod egress;
pub mod ingress;
pub mod laws;
pub mod sets;
pub mod stages;

use std::collections::VecDeque;
use vstd::prelude::*;
use crate::c2s::C2sPlayPacket;
use crate::channel::{try_send, SendOutcome};
use crate::entity::{EntityId, Player, TrackedData};
use crate::event::{Event, GameMode, Settings};
use crate::fixed::Fixed;
use crate::flags::{ClientFlag, ClientFlags, FlagsView};
use crate::geometry::{BlockPos, ChunkPos, Vec3};
use crate::ident::DimensionId;
use crate::s2c::{S2cPlayPacket, S2cView, Text, TitleAnimationTimes};
use crate::seqs::views;
use crate::server::SharedServer;
use crate::slotmap::{Key, SlotMap};
use crate::client::sets::{ChunkSet, EntitySet};
use crate::world::WorldId;
use crate::Ticks;

verus! {

/// An identifier for a [`Client`] on the server.
///
/// Client IDs are either _valid_ or _invalid_. Valid client IDs point to
/// clients that are in the container, invalid ones do not. The ID of a
/// client that was deleted never becomes valid again, whatever is inserted
/// later; the ID of a client that was taken out becomes valid again when the
/// client is put back.
///
/// The default client ID is always invalid.
#[derive(Clone, Copy, PartialEq, Eq, PartialOrd, Ord, Hash, Default, Debug, Structural)]
pub struct ClientId(pub Key);

impl ClientId {
    /// The default client ID, which is always invalid.
    pub fn null() -> (id: ClientId)
        ensures
            id == ClientId(Key { index: 0, generation: 0 }),
    {
        ClientId(Key::null())
    }
}

/// The skin of a player and the signature that vouches for it, both in
/// base 64.
#[derive(Clone, PartialEq, Eq, Debug)]
pub struct SignedPlayerTextures {
    pub payload: String,
    pub signature: String,
}

/// What the login hands over of a client that completed it.
pub struct NewClientData {
    pub uuid: u128,
    pub username: String,
    pub textures: Option<SignedPlayerTextures>,
}

/// Represents a remote connection to a client after successfully logging in.
///
/// Much like an entity, clients possess a location, rotation, and UUID.
/// However, clients are handled separately from entities and are partially
/// managed by the library.
///
/// By default, clients have no influence over the worlds they reside in. They
/// cannot break blocks, hurt entities, or see other clients. Interactions with
/// the server must be handled explicitly with [`Self::pop_event`].
///
/// Additionally, clients possess [`Player`] entity data which is only visible to
/// themselves. This can be accessed with [`Self::player`] and
/// [`Self::player_mut`].
pub struct Client {
    /// Without a channel the client is disconnected.
    send: SendOpt,
    recv: flume::Receiver<C2sPlayPacket>,
    /// The tick this client was created.
    created_tick: Ticks,
    uuid: u128,
    username: String,
    textures: Option<SignedPlayerTextures>,
    world: WorldId,
    new_position: Vec3,
    old_position: Vec3,
    /// Measured in m/s.
    velocity: Vec3,
    /// Measured in degrees
    yaw: Fixed,
    /// Measured in degrees
    pitch: Fixed,
    /// Counts up as teleports are made.
    teleport_id_counter: u32,
    /// The number of pending client teleports that have yet to receive a
    /// confirmation. Inbound client position packets are ignored while this
    /// is nonzero.
    pending_teleports: u32,
    spawn_position: BlockPos,
    spawn_position_yaw: Fixed,
    death_location: Option<(DimensionId, BlockPos)>,
    events: VecDeque<Event>,
    /// The ID of the last keepalive sent.
    last_keepalive_id: i64,
    new_max_view_distance: u8,
    old_max_view_distance: u8,
    /// Entities that were visible to this client at the end of the last tick.
    /// This is used to determine what entity create/destroy packets should be
    /// sent.
    loaded_entities: EntitySet,
    loaded_chunks: ChunkSet,
    new_game_mode: GameMode,
    old_game_mode: GameMode,
    settings: Option<Settings>,
    dug_blocks: Vec<i32>,
    /// Should be sent after login packet.
    msgs_to_send: Vec<Text>,
    attack_speed: Fixed,
    movement_speed: Fixed,
    flags: ClientFlags,
    /// The data for the client's own player entity.
    player_data: Player,
}

/// What a [`Client`] is in contracts.
#[verifier::ext_equal]
pub struct ClientView {
    /// Whether the client still has its outbound channel.
    pub connected: bool,
    /// The packets that were handed to the outbound channel since the client
    /// was made, in order: those that the channel took, and the one it
    /// refused, if it refused one.
    pub handed: Seq<S2cView>,
    pub created_tick: Ticks,
    pub uuid: u128,
    pub username: String,
    pub textures: Option<SignedPlayerTextures>,
    pub world: WorldId,
    pub new_position: Vec3,
    pub old_position: Vec3,
    pub velocity: Vec3,
    pub yaw: Fixed,
    pub pitch: Fixed,
    pub teleport_id_counter: u32,
    pub pending_teleports: u32,
    pub spawn_position: BlockPos,
    pub spawn_position_yaw: Fixed,
    pub death_location: Option<(DimensionId, BlockPos)>,
    pub events: Seq<Event>,
    pub last_keepalive_id: i64,
    pub new_max_view_distance: u8,
    pub old_max_view_distance: u8,
    pub loaded_entities: Seq<EntityId>,
    pub loaded_chunks: Seq<ChunkPos>,
    pub new_game_mode: GameMode,
    pub old_game_mode: GameMode,
    pub settings: Option<Settings>,
    pub dug_blocks: Seq<i32>,
    pub msgs_to_send: Seq<Text>,
    pub attack_speed: Fixed,
    pub movement_speed: Fixed,
    pub flags: FlagsView,
    /// The metadata entries of the client's own player.
    pub player_initial: Seq<u8>,
    /// The entries written this tick.
    pub player_updated: Seq<u8>,
    /// The events raised on the client's own player this tick.
    pub player_events: Seq<u8>,
}

impl View for Client {
    type V = ClientView;

    closed spec fn view(&self) -> ClientView {
        ClientView {
            connected: self.send.channel() is Some,
            handed: self.send.handed(),
            created_tick: self.created_tick,
            uuid: self.uuid,
            username: self.username,
            textures: self.textures,
            world: self.world,
            new_position: self.new_position,
            old_position: self.old_position,
            velocity: self.velocity,
            yaw: self.yaw,
            pitch: self.pitch,
            teleport_id_counter: self.teleport_id_counter,
            pending_teleports: self.pending_teleports,
            spawn_position: self.spawn_position,
            spawn_position_yaw: self.spawn_position_yaw,
            death_location: self.death_location,
            events: self.events@,
            last_keepalive_id: self.last_keepalive_id,
            new_max_view_distance: self.new_max_view_distance,
            old_max_view_distance: self.old_max_view_distance,
            loaded_entities: self.loaded_entities@,
            loaded_chunks: self.loaded_chunks@,
            new_game_mode: self.new_game_mode,
            old_game_mode: self.old_game_mode,
            settings: self.settings,
            dug_blocks: self.dug_blocks@,
            msgs_to_send: self.msgs_to_send@,
            attack_speed: self.attack_speed,
            movement_speed: self.movement_speed,
            flags: self.flags@,
            player_initial: self.player_data.initial@,
            player_updated: self.player_data.updated@,
            player_events: self.player_data.event_codes@,
        }
    }
}

/// The smallest and the largest view distance a client can be held to.
pub const MIN_VIEW_DISTANCE: u8 = 2;

pub const MAX_VIEW_DISTANCE: u8 = 32;

impl ClientView {
    /// The client, disconnected.
    pub open spec fn disconnected(self) -> ClientView {
        ClientView { connected: false, ..self }
    }

    /// The client after the packet `p` was sent to it: the packet was handed
    /// to the channel if the client had one, and `connected` says whether it
    /// has one afterwards.
    pub open spec fn sent(self, p: S2cView, connected: bool) -> ClientView {
        ClientView {
            connected,
            handed: if self.connected {
                self.handed.push(p)
            } else {
                self.handed
            },
            ..self
        }
    }

    /// The view distance: what the client asked for (2 until it has said),
    /// but no more than it is allowed.
    pub open spec fn view_distance(self) -> u8 {
        let wanted = match self.settings {
            Some(s) => s.view_distance,
            None => 2u8,
        };
        if wanted <= self.new_max_view_distance {
            wanted
        } else {
            self.new_max_view_distance
        }
    }

    /// The client after the game set its position and rotation: the velocity
    /// is zero, and the first such call of a tick arms one handshake; the
    /// client is disconnected where the pending handshakes cannot be counted
    /// any more.
    pub open spec fn teleported(self, pos: Vec3, yaw: Fixed, pitch: Fixed) -> ClientView {
        let moved = ClientView {
            new_position: pos,
            yaw,
            pitch,
            velocity: Vec3 { x: 0, y: 0, z: 0 },
            ..self
        };
        let armed = FlagsView { teleported_this_tick: true, ..self.flags };
        if self.flags.teleported_this_tick {
            moved
        } else if self.pending_teleports == u32::MAX {
            ClientView { flags: armed, connected: false, ..moved }
        } else {
            ClientView {
                flags: armed,
                pending_teleports: (self.pending_teleports + 1) as u32,
                teleport_id_counter: if self.teleport_id_counter == u32::MAX {
                    0u32
                } else {
                    (self.teleport_id_counter + 1) as u32
                },
                ..moved
            }
        }
    }

    /// Whether a call of `teleport` now would overflow the pending handshakes.
    pub open spec fn teleport_overflows(self) -> bool {
        !self.flags.teleported_this_tick && self.pending_teleports == u32::MAX
    }

    /// The view distance `dist` held to the range a client can be held to.
    pub open spec fn clamp_view_distance(dist: u8) -> u8 {
        if dist < MIN_VIEW_DISTANCE {
            MIN_VIEW_DISTANCE
        } else if dist > MAX_VIEW_DISTANCE {
            MAX_VIEW_DISTANCE
        } else {
            dist
        }
    }
}

/// A new client of the tick `tick`: at the origin of no world, in survival
/// mode, allowed a view of 16 chunks, with its spawn position to be sent and
/// no keep-alive outstanding.
pub open spec fn new_client_view(tick: Ticks, ncd: NewClientData) -> ClientView {
    ClientView {
        connected: true,
        handed: Seq::empty(),
        created_tick: tick,
        uuid: ncd.uuid,
        username: ncd.username,
        textures: ncd.textures,
        world: WorldId(Key { index: 0, generation: 0 }),
        new_position: Vec3 { x: 0, y: 0, z: 0 },
        old_position: Vec3 { x: 0, y: 0, z: 0 },
        velocity: Vec3 { x: 0, y: 0, z: 0 },
        yaw: 0,
        pitch: 0,
        teleport_id_counter: 0,
        pending_teleports: 0,
        spawn_position: BlockPos { x: 0, y: 0, z: 0 },
        spawn_position_yaw: 0,
        death_location: None,
        events: Seq::empty(),
        last_keepalive_id: 0,
        new_max_view_distance: 16,
        old_max_view_distance: 0,
        loaded_entities: Seq::empty(),
        loaded_chunks: Seq::empty(),
        new_game_mode: GameMode::Survival,
        old_game_mode: GameMode::Survival,
        settings: None,
        dug_blocks: Seq::empty(),
        msgs_to_send: Seq::empty(),
        attack_speed: 16384,
        movement_speed: 2867,
        flags: FlagsView { modified_spawn_position: true, got_keepalive: true, ..FlagsView::none() },
        player_initial: Seq::empty(),
        player_updated: Seq::empty(),
        player_events: Seq::empty(),
    }
}

/// The packets that show a title: the title, the subtitle unless it is
/// empty, and the animation if there is one.
pub open spec fn title_stream(
    title: Text,
    subtitle: Text,
    animation: Option<TitleAnimationTimes>,
) -> Seq<S2cPlayPacket> {
    let first = seq![S2cPlayPacket::SetTitleText { text: title }];
    let second = if subtitle@.len() == 0 {
        first
    } else {
        first.push(S2cPlayPacket::SetSubtitleText { subtitle_text: subtitle })
    };
    match animation {
        Some(a) => second.push(S2cPlayPacket::SetTitleAnimationTimes(a)),
        None => second,
    }
}

/// The packets that show a title.
pub fn title_packets(title: Text, subtitle: Text, animation: Option<TitleAnimationTimes>) -> (r:
    Vec<S2cPlayPacket>)
    ensures
        r@ == title_stream(title, subtitle, animation),
{
    let mut out: Vec<S2cPlayPacket> = Vec::new();
    let empty: bool = subtitle.as_str().is_empty();
    out.push(S2cPlayPacket::SetTitleText { text: title });
    if !empty {
        out.push(S2cPlayPacket::SetSubtitleText { subtitle_text: subtitle });
    }
    match animation {
        Some(a) => {
            out.push(S2cPlayPacket::SetTitleAnimationTimes(a));
        },
        None => {},
    }
    out
}

/// The outbound channel of a client, for as long as it has one, and what was
/// handed to it.
pub struct SendOpt {
    /// `None` once the client is disconnected.
    sender: Option<flume::Sender<S2cPlayPacket>>,
    /// Every packet that was handed to the channel, in order.
    handed: Ghost<Seq<S2cView>>,
}

impl SendOpt {
    /// The channel, if there still is one.
    pub closed spec fn channel(&self) -> Option<flume::Sender<S2cPlayPacket>> {
        self.sender
    }

    /// The packets that were handed to the channel, in order: those that it
    /// took, and the one it refused, if it refused one.
    pub closed spec fn handed(&self) -> Seq<S2cView> {
        self.handed@
    }

    /// The channel `sender`, with nothing handed to it yet.
    pub fn new(sender: flume::Sender<S2cPlayPacket>) -> (r: SendOpt)
        ensures
            r.channel() == Some(sender),
            r.handed() == Seq::<S2cView>::empty(),
    {
        SendOpt { sender: Some(sender), handed: Ghost(Seq::empty()) }
    }
}

/// Hands `pkt` to the channel behind `send_opt`, if there is one, and drops
/// the channel where it is full or closed. Whatever the channel did: the
/// packet was handed to it if there was one, what is left is the same
/// channel or none, and where there was none there is none.
pub fn send_packet(send_opt: &mut SendOpt, pkt: S2cPlayPacket)
    ensures
        old(send_opt).channel() is None ==> final(send_opt).channel() is None,
        final(send_opt).channel() is Some ==> final(send_opt).channel() == old(
            send_opt,
        ).channel(),
        final(send_opt).handed() == (if old(send_opt).channel() is Some {
            old(send_opt).handed().push(pkt@)
        } else {
            old(send_opt).handed()
        }),
{
    let ghost handing = pkt@;
    let outcome: Option<SendOutcome> = match &send_opt.sender {
        Some(send) => Some(try_send(send, pkt)),
        None => None,
    };
    if outcome.is_some() {
        send_opt.handed = Ghost(send_opt.handed@.push(handing));
    }
    send_opt.sender = after_send(send_opt.sender.take(), outcome);
}

/// What becomes of a channel after an attempt to send on it: it is kept
/// where the packet was sent, and dropped where the channel was full or
/// closed.
pub fn after_send(
    send_opt: Option<flume::Sender<S2cPlayPacket>>,
    outcome: Option<SendOutcome>,
) -> (r: Option<flume::Sender<S2cPlayPacket>>)
    ensures
        r == (match outcome {
            Some(SendOutcome::Full) => None,
            Some(SendOutcome::Disconnected) => None,
            _ => send_opt,
        }),
{
    match outcome {
        Some(SendOutcome::Full) => None,
        Some(SendOutcome::Disconnected) => None,
        _ => send_opt,
    }
}

/// Whether `after` is `before` after `packets` were sent to it in order: each
/// was handed to the channel for as long as the client had one, so that what
/// was handed is the first so many of them, all of them if the client still
/// has its channel, none if it had none, and at least the first if it had
/// one. Nothing but the connection and what was handed has changed.
pub open spec fn offered(before: ClientView, after: ClientView, packets: Seq<S2cView>) -> bool {
    &&& after == (ClientView { connected: after.connected, handed: after.handed, ..before })
    &&& after.connected ==> before.connected
    &&& exists|k: int| #[trigger] handed_first(before, after, packets, k)
}

/// Whether what was handed to the channel between `before` and `after` is
/// the first `k` of `packets`, and `k` is as [`offered`] has it.
pub open spec fn handed_first(
    before: ClientView,
    after: ClientView,
    packets: Seq<S2cView>,
    k: int,
) -> bool {
    &&& 0 <= k <= packets.len()
    &&& after.handed == before.handed + packets.subrange(0, k)
    &&& after.connected ==> k == packets.len()
    &&& !before.connected ==> k == 0
    &&& before.connected && packets.len() > 0 ==> k >= 1
}

impl Client {
    /// A client of the current tick for the connection behind `send` and
    /// `recv`.
    pub fn new(
        send: flume::Sender<S2cPlayPacket>,
        recv: flume::Receiver<C2sPlayPacket>,
        shared: &SharedServer,
        ncd: NewClientData,
    ) -> (r: Client)
        ensures
            r@ == new_client_view(shared.current_tick, ncd),
    {
        let flags = ClientFlags::new().with(ClientFlag::ModifiedSpawnPosition, true).with(
            ClientFlag::GotKeepalive,
            true,
        );
        Client {
            send: SendOpt::new(send),
            recv,
            created_tick: shared.current_tick(),
            uuid: ncd.uuid,
            username: ncd.username,
            textures: ncd.textures,
            world: WorldId(Key::null()),
            new_position: Vec3::zero(),
            old_position: Vec3::zero(),
            velocity: Vec3::zero(),
            yaw: 0,
            pitch: 0,
            teleport_id_counter: 0,
            pending_teleports: 0,
            spawn_position: BlockPos::new(0, 0, 0),
            spawn_position_yaw: 0,
            death_location: None,
            events: VecDeque::new(),
            last_keepalive_id: 0,
            new_max_view_distance: 16,
            old_max_view_distance: 0,
            loaded_entities: EntitySet::new(),
            loaded_chunks: ChunkSet::new(),
            new_game_mode: GameMode::Survival,
            old_game_mode: GameMode::Survival,
            settings: None,
            dug_blocks: Vec::new(),
            msgs_to_send: Vec::new(),
            attack_speed: 16384,
            movement_speed: 2867,
            flags,
            player_data: TrackedData::new(),
        }
    }

    /// Gets the tick that this client was created.
    pub fn created_tick(&self) -> (r: Ticks)
        ensures
            r == self@.created_tick,
    {
        self.created_tick
    }

    /// Gets the client's UUID.
    pub fn uuid(&self) -> (r: u128)
        ensures
            r == self@.uuid,
    {
        self.uuid
    }

    /// Gets the username of this client, which is always valid.
    pub fn username(&self) -> (r: &str)
        ensures
            r@ == self@.username@,
    {
        self.username.as_str()
    }

    /// A copy of the username of this client.
    pub fn username_owned(&self) -> (r: String)
        ensures
            r == self@.username,
    {
        self.username.clone()
    }

    /// Returns the sneaking state of this client.
    pub fn is_sneaking(&self) -> (r: bool)
        ensures
            r == self@.flags.sneaking,
    {
        self.flags.get(ClientFlag::Sneaking)
    }

    /// Returns the sprinting state of this client.
    pub fn is_sprinting(&self) -> (r: bool)
        ensures
            r == self@.flags.sprinting,
    {
        self.flags.get(ClientFlag::Sprinting)
    }

    /// Gets the player textures of this client. If the client does not have
    /// a skin, then `None` is returned.
    pub fn textures(&self) -> (r: Option<&SignedPlayerTextures>)
        ensures
            match r {
                Some(t) => self@.textures == Some(*t),
                None => self@.textures is None,
            },
    {
        self.textures.as_ref()
    }

    /// Gets the world this client is located in.
    pub fn world(&self) -> (r: WorldId)
        ensures
            r == self@.world,
    {
        self.world
    }

    /// Changes the world this client is located in.
    ///
    /// The given [`WorldId`] must be valid. Otherwise, the client is
    /// disconnected.
    pub fn spawn(&mut self, world: WorldId)
        ensures
            final(self)@ == (ClientView {
                world,
                flags: FlagsView { spawn: true, ..old(self)@.flags },
                ..old(self)@
            }),
    {
        self.world = world;
        self.flags.set(ClientFlag::Spawn, true);
    }

    /// Sends a system message to the player which is visible in the chat.
    ///
    /// The message is kept until the next update: a message that reaches a
    /// client before its login packet is lost on it.
    pub fn send_message(&mut self, msg: Text)
        ensures
            final(self)@ == (ClientView {
                msgs_to_send: old(self)@.msgs_to_send.push(msg),
                ..old(self)@
            }),
    {
        self.msgs_to_send.push(msg);
    }

    /// Gets the absolute position of this client in the world it is located
    /// in.
    pub fn position(&self) -> (r: Vec3)
        ensures
            r == self@.new_position,
    {
        self.new_position
    }

    /// Sets position and rotation and arms the handshake, without touching
    /// the channel; `false` where the pending handshakes overflow.
    pub(crate) fn arm_teleport(&mut self, pos: Vec3, yaw: Fixed, pitch: Fixed) -> (ok: bool)
        ensures
            ok == !old(self)@.teleport_overflows(),
            final(self)@ == (ClientView {
                connected: old(self)@.connected,
                ..old(self)@.teleported(pos, yaw, pitch)
            }),
    {
        self.new_position = pos;
        self.yaw = yaw;
        self.pitch = pitch;
        self.velocity = Vec3::zero();
        if !self.flags.get(ClientFlag::TeleportedThisTick) {
            self.flags.set(ClientFlag::TeleportedThisTick, true);
            match self.pending_teleports.checked_add(1) {
                Some(n) => {
                    self.pending_teleports = n;
                },
                None => {
                    return false;
                },
            }
            self.teleport_id_counter = self.teleport_id_counter.wrapping_add(1);
        }
        true
    }

    /// Changes the position and rotation of this client in the world it is
    /// located in.
    ///
    /// If you want to change the client's world, use [`Self::spawn`].
    pub fn teleport(&mut self, pos: Vec3, yaw: Fixed, pitch: Fixed)
        ensures
            final(self)@ == old(self)@.teleported(pos, yaw, pitch),
    {
        if !self.arm_teleport(pos, yaw, pitch) {
            self.disconnect_no_reason();
        }
    }

    /// The number of teleports that the client has yet to confirm. What the
    /// client says of its position is ignored while this is not zero.
    pub fn pending_teleports(&self) -> (r: u32)
        ensures
            r == self@.pending_teleports,
    {
        self.pending_teleports
    }

    /// The positions of the chunks that the client has, in the order it was
    /// sent them, each of them once.
    pub fn loaded_chunks(&self) -> (r: Vec<ChunkPos>)
        ensures
            r@ == self@.loaded_chunks,
            r@.no_duplicates(),
    {
        self.loaded_chunks.to_vec()
    }

    /// The entities that the client sees, in the order they were shown to it,
    /// each of them once.
    pub fn loaded_entities(&self) -> (r: Vec<EntityId>)
        ensures
            r@ == self@.loaded_entities,
            r@.no_duplicates(),
    {
        self.loaded_entities.to_vec()
    }

    /// Gets the velocity of this client in m/s.
    ///
    /// The velocity of a client is derived from their current and previous
    /// position.
    pub fn velocity(&self) -> (r: Vec3)
        ensures
            r == self@.velocity,
    {
        self.velocity
    }

    /// Sets the client's velocity in m/s.
    pub fn set_velocity(&mut self, velocity: Vec3)
        ensures
            final(self)@ == (ClientView {
                velocity,
                flags: FlagsView { velocity_modified: true, ..old(self)@.flags },
                ..old(self)@
            }),
    {
        self.velocity = velocity;
        self.flags.set(ClientFlag::VelocityModified, true);
    }

    /// Gets this client's yaw.
    pub fn yaw(&self) -> (r: Fixed)
        ensures
            r == self@.yaw,
    {
        self.yaw
    }

    /// Gets this client's pitch.
    pub fn pitch(&self) -> (r: Fixed)
        ensures
            r == self@.pitch,
    {
        self.pitch
    }

    /// Gets the spawn position. The client will see `minecraft:compass` items
    /// point at the returned position.
    pub fn spawn_position(&self) -> (r: BlockPos)
        ensures
            r == self@.spawn_position,
    {
        self.spawn_position
    }

    /// Sets the spawn position. The client will see `minecraft:compass` items
    /// point at the provided position.
    pub fn set_spawn_position(&mut self, pos: BlockPos, yaw_degrees: Fixed)
        ensures
            final(self)@ == (ClientView {
                spawn_position: pos,
                spawn_position_yaw: yaw_degrees,
                flags: FlagsView {
                    modified_spawn_position: old(self)@.flags.modified_spawn_position || pos
                        != old(self)@.spawn_position || yaw_degrees != old(self)@.spawn_position_yaw,
                    ..old(self)@.flags
                },
                ..old(self)@
            }),
    {
        if pos != self.spawn_position || yaw_degrees != self.spawn_position_yaw {
            self.spawn_position = pos;
            self.spawn_position_yaw = yaw_degrees;
            self.flags.set(ClientFlag::ModifiedSpawnPosition, true);
        }
    }

    /// Gets the last death location of this client. The client will see
    /// `minecraft:recovery_compass` items point at the returned position.
    /// If the client's current dimension differs from the returned
    /// dimension or the location is `None` then the compass will spin
    /// randomly.
    pub fn death_location(&self) -> (r: Option<(DimensionId, BlockPos)>)
        ensures
            r == self@.death_location,
    {
        self.death_location
    }

    /// Sets the last death location. The client will see
    /// `minecraft:recovery_compass` items point at the provided position.
    /// If the client's current dimension differs from the provided
    /// dimension or the location is `None` then the compass will spin
    /// randomly.
    ///
    /// Changes to the last death location take effect when the client
    /// (re)spawns.
    pub fn set_death_location(&mut self, location: Option<(DimensionId, BlockPos)>)
        ensures
            final(self)@ == (ClientView { death_location: location, ..old(self)@ }),
    {
        self.death_location = location;
    }

    /// Gets the client's game mode.
    pub fn game_mode(&self) -> (r: GameMode)
        ensures
            r == self@.new_game_mode,
    {
        self.new_game_mode
    }

    /// Sets the client's game mode.
    pub fn set_game_mode(&mut self, game_mode: GameMode)
        ensures
            final(self)@ == (ClientView { new_game_mode: game_mode, ..old(self)@ }),
    {
        self.new_game_mode = game_mode;
    }

    /// Sets the title this client sees.
    ///
    /// A title is a large piece of text displayed in the center of the screen
    /// which may also include a subtitle underneath it. The title
    /// can be configured to fade in and out using the
    /// [`TitleAnimationTimes`] struct.
    ///
    /// The packets are those of [`title_packets`], sent at once and in order
    /// as [`Self::send_all`] sends.
    pub fn set_title(&mut self, title: Text, subtitle: Text, animation: Option<TitleAnimationTimes>)
        ensures
            offered(old(self)@, final(self)@, views(title_stream(title, subtitle, animation))),
    {
        let packets = title_packets(title, subtitle, animation);
        self.send_all(packets);
    }

    /// Sends `packets` in order, each as [`Self::send_packet`] does: the
    /// packets are handed to the channel one after the other until the
    /// channel refuses one, and with that one the client is disconnected.
    pub fn send_all(&mut self, packets: Vec<S2cPlayPacket>)
        ensures
            offered(old(self)@, final(self)@, views(packets@)),
    {
        let ghost all = views(packets@);
        let ghost sent = packets@;
        let ghost mut k: int = 0;
        proof {
            assert(all.subrange(0, 0) =~= Seq::<S2cView>::empty());
            assert(self@.handed + Seq::<S2cView>::empty() =~= self@.handed);
        }
        for p in it: packets
            invariant
                it.seq() == sent,
                all == views(sent),
                self@ == (ClientView {
                    connected: self@.connected,
                    handed: self@.handed,
                    ..old(self)@
                }),
                self@.connected ==> old(self)@.connected,
                0 <= k <= it.index(),
                self@.handed == old(self)@.handed + all.subrange(0, k),
                self@.connected ==> k == it.index(),
                !old(self)@.connected ==> k == 0,
                old(self)@.connected && it.index() > 0 ==> k >= 1,
                it.index() == 0 ==> self@.connected == old(self)@.connected,
        {
            proof {
                let i = it.index() as int;
                assert(all[i] == p@);
                if self@.connected {
                    assert(all.subrange(0, i).push(p@) =~= all.subrange(0, i + 1));
                    assert((old(self)@.handed + all.subrange(0, i)).push(p@) =~= old(self)@.handed
                        + all.subrange(0, i + 1));
                    k = i + 1;
                }
            }
            self.send_packet(p);
        }
        proof {
            assert(handed_first(old(self)@, self@, all, k));
        }
    }

    /// Gets the attack cooldown speed.
    pub fn attack_speed(&self) -> (r: Fixed)
        ensures
            r == self@.attack_speed,
    {
        self.attack_speed
    }

    /// Sets the attack cooldown speed.
    pub fn set_attack_speed(&mut self, speed: Fixed)
        ensures
            final(self)@ == (ClientView {
                attack_speed: speed,
                flags: FlagsView {
                    attack_speed_modified: old(self)@.flags.attack_speed_modified || speed != old(self)@.attack_speed,
                    ..old(self)@.flags
                },
                ..old(self)@
            }),
    {
        if self.attack_speed != speed {
            self.attack_speed = speed;
            self.flags.set(ClientFlag::AttackSpeedModified, true);
        }
    }

    /// Gets the speed at which the client can run on the ground.
    pub fn movement_speed(&self) -> (r: Fixed)
        ensures
            r == self@.movement_speed,
    {
        self.movement_speed
    }

    /// Sets the speed at which the client can run on the ground.
    pub fn set_movement_speed(&mut self, speed: Fixed)
        ensures
            final(self)@ == (ClientView {
                movement_speed: speed,
                flags: FlagsView {
                    movement_speed_modified: old(self)@.flags.movement_speed_modified || speed
                        != old(self)@.movement_speed,
                    ..old(self)@.flags
                },
                ..old(self)@
            }),
    {
        if self.movement_speed != speed {
            self.movement_speed = speed;
            self.flags.set(ClientFlag::MovementSpeedModified, true);
        }
    }

    /// Removes the current title from the client's screen: sends the packet
    /// that clears and resets it, as [`Self::send_packet`] sends.
    pub fn clear_title(&mut self)
        ensures
            final(self)@ == old(self)@.sent(
                S2cView::Plain(S2cPlayPacket::ClearTitles { reset: true }),
                final(self)@.connected,
            ),
            final(self)@.connected ==> old(self)@.connected,
    {
        self.send_packet(S2cPlayPacket::ClearTitles { reset: true });
    }

    /// Gets if the client is on the ground, as determined by the client.
    pub fn on_ground(&self) -> (r: bool)
        ensures
            r == self@.flags.on_ground,
    {
        self.flags.get(ClientFlag::OnGround)
    }

    /// Gets whether or not the client is connected to the server.
    ///
    /// A disconnected client object will never become reconnected. It is your
    /// responsibility to remove disconnected clients from the [`Clients`]
    /// container.
    pub fn is_disconnected(&self) -> (r: bool)
        ensures
            r == !self@.connected,
    {
        self.send.sender.is_none()
    }

    /// Removes an [`Event`] from the event queue.
    ///
    /// If there are no remaining events, `None` is returned.
    ///
    /// Any remaining client events are deleted at the end of the
    /// current tick.
    pub fn pop_event(&mut self) -> (r: Option<Event>)
        ensures
            match r {
                Some(e) => old(self)@.events.len() > 0 && e == old(self)@.events[0] && final(self)@ == (ClientView { events: old(self)@.events.subrange(
                        1,
                        old(self)@.events.len() as int,
                    ), ..old(self)@ }),
                None => old(self)@.events.len() == 0 && final(self)@ == old(self)@,
            },
    {
        self.events.pop_front()
    }

    /// The current view distance of this client measured in chunks.
    pub fn view_distance(&self) -> (r: u8)
        ensures
            r == self@.view_distance(),
    {
        let wanted: u8 = match &self.settings {
            Some(s) => s.view_distance,
            None => 2,
        };
        if wanted <= self.new_max_view_distance {
            wanted
        } else {
            self.new_max_view_distance
        }
    }

    /// Gets the maximum view distance. The client will not be able to see
    /// chunks and entities past this distance.
    ///
    /// The value returned is measured in chunks.
    pub fn max_view_distance(&self) -> (r: u8)
        ensures
            r == self@.new_max_view_distance,
    {
        self.new_max_view_distance
    }

    /// Sets the maximum view distance. The client will not be able to see
    /// chunks and entities past this distance.
    ///
    /// The new view distance is measured in chunks and is clamped to `2..=32`.
    pub fn set_max_view_distance(&mut self, dist: u8)
        ensures
            final(self)@ == (ClientView {
                new_max_view_distance: ClientView::clamp_view_distance(dist),
                ..old(self)@
            }),
    {
        self.new_max_view_distance = if dist < MIN_VIEW_DISTANCE {
            MIN_VIEW_DISTANCE
        } else if dist > MAX_VIEW_DISTANCE {
            MAX_VIEW_DISTANCE
        } else {
            dist
        };
    }

    /// Enables hardcore mode. This changes the design of the client's hearts.
    ///
    /// To have any visible effect, this function must be called on the same
    /// tick the client joins the server.
    pub fn set_hardcore(&mut self, hardcore: bool)
        ensures
            final(self)@ == (ClientView {
                flags: FlagsView { hardcore, ..old(self)@.flags },
                ..old(self)@
            }),
    {
        self.flags.set(ClientFlag::Hardcore, hardcore);
    }

    /// Gets if hardcore mode is enabled.
    pub fn is_hardcore(&self) -> (r: bool)
        ensures
            r == self@.flags.hardcore,
    {
        self.flags.get(ClientFlag::Hardcore)
    }

    /// Gets the client's current settings.
    pub fn settings(&self) -> (r: Option<&Settings>)
        ensures
            match r {
                Some(s) => self@.settings == Some(*s),
                None => self@.settings is None,
            },
    {
        self.settings.as_ref()
    }

    /// Disconnects this client from the server with the provided reason. This
    /// has no effect if the client is already disconnected.
    ///
    /// All future calls to [`Self::is_disconnected`] will return `true`.
    pub fn disconnect(&mut self, reason: Text)
        ensures
            final(self)@ == old(self)@.sent(
                S2cView::Plain(S2cPlayPacket::Disconnect { reason }),
                false,
            ),
    {
        if self.send.sender.is_some() {
            self.send_packet(S2cPlayPacket::Disconnect { reason });
            self.send.sender = None;
        }
    }

    /// Like [`Self::disconnect`], but no reason for the disconnect is
    /// displayed.
    pub fn disconnect_no_reason(&mut self)
        ensures
            final(self)@ == old(self)@.disconnected(),
    {
        if self.send.sender.is_some() {
            self.send.sender = None;
        }
    }

    /// Returns an immutable reference to the client's own [`Player`] data.
    pub fn player(&self) -> (r: &Player)
        ensures
            r.initial@ == self@.player_initial,
            r.updated@ == self@.player_updated,
            r.event_codes@ == self@.player_events,
    {
        &self.player_data
    }

    /// Returns a mutable reference to the client's own [`Player`] data.
    ///
    /// Changes made to this data is only visible to this client.
    pub fn player_mut(&mut self) -> (r: &mut Player)
        ensures
            r.initial@ == old(self)@.player_initial,
            r.updated@ == old(self)@.player_updated,
            r.event_codes@ == old(self)@.player_events,
            final(self)@ == (ClientView {
                player_initial: final(r).initial@,
                player_updated: final(r).updated@,
                player_events: final(r).event_codes@,
                ..old(self)@
            }),
    {
        &mut self.player_data
    }

    /// Attempts to enqueue a play packet to be sent to this client. The client
    /// is disconnected if the clientbound packet buffer is full.
    ///
    /// Whatever the channel did with the packet: the packet was handed to it
    /// if the client was connected, nothing else but the connection changes,
    /// and a disconnected client stays so.
    pub fn send_packet(&mut self, packet: S2cPlayPacket)
        ensures
            final(self)@ == old(self)@.sent(packet@, final(self)@.connected),
            final(self)@.connected ==> old(self)@.connected,
    {
        send_packet(&mut self.send, packet);
    }
}

/// A container for all [`Client`]s on a server.
///
/// New clients are inserted into this container by the login but are not
/// automatically deleted. It is your responsibility to delete them once
/// they disconnect. This can be checked with [`Client::is_disconnected`].
pub struct Clients {
    sm: SlotMap<Client>,
}

impl Clients {
    /// The representation invariant.
    pub closed spec fn wf(&self) -> bool {
        self.sm.wf()
    }

    /// The clients by their identifiers.
    pub closed spec fn view(&self) -> Map<ClientId, Client> {
        Map::new(|id: ClientId| self.sm@.contains_key(id.0), |id: ClientId| self.sm@[id.0])
    }

    /// Whether `id` was the identifier of a client that has been deleted.
    pub closed spec fn deleted(&self, id: ClientId) -> bool {
        self.sm.stale(id.0)
    }

    /// Whether the container takes another client.
    pub closed spec fn has_room(&self) -> bool {
        self.sm.has_room()
    }

    /// Whether the client `id` was taken out and its place is kept.
    pub closed spec fn held_out(&self, id: ClientId) -> bool {
        self.sm.held_out(id.0)
    }

    /// An identifier that was deleted is not valid, and neither is the
    /// default identifier.
    pub proof fn lemma_deleted_is_invalid(&self, id: ClientId)
        requires
            self.wf(),
        ensures
            self.deleted(id) ==> !self@.contains_key(id),
            !self@.contains_key(ClientId(Key { index: 0, generation: 0 })),
    {
        self.sm.lemma_stale_not_live(id.0);
    }

    /// No client.
    pub fn new() -> (r: Clients)
        ensures
            r.wf(),
            r.has_room(),
            r@ == Map::<ClientId, Client>::empty(),
            forall|id: ClientId| !r.deleted(id),
    {
        let r = Clients { sm: SlotMap::new() };
        assert(r@ =~= Map::<ClientId, Client>::empty());
        r
    }

    /// Adds `client` under an identifier that was never valid before; hands
    /// the client back where no identifier is left.
    pub fn insert(&mut self, client: Client) -> (r: Result<ClientId, Client>)
        requires
            old(self).wf(),
        ensures
            final(self).wf(),
            r is Ok <==> old(self).has_room(),
            forall|id: ClientId| old(self).deleted(id) ==> final(self).deleted(id),
            match r {
                Ok(id) => {
                    &&& !old(self)@.contains_key(id)
                    &&& !old(self).deleted(id)
                    &&& final(self)@ == old(self)@.insert(id, client)
                },
                Err(c) => c == client && final(self)@ == old(self)@,
            },
    {
        match self.sm.insert(client) {
            Ok(k) => {
                assert(self@ =~= old(self)@.insert(ClientId(k), client));
                Ok(ClientId(k))
            },
            Err(c) => {
                assert(self@ =~= old(self)@);
                Err(c)
            },
        }
    }

    /// Removes a client from the server.
    ///
    /// If the given client ID is valid, `true` is returned and the client is
    /// deleted. Otherwise, `false` is returned and the function has no effect.
    pub fn delete(&mut self, client: ClientId) -> (r: bool)
        requires
            old(self).wf(),
        ensures
            final(self).wf(),
            r == old(self)@.contains_key(client),
            final(self)@ == old(self)@.remove(client),
            r ==> final(self).deleted(client),
            forall|id: ClientId| old(self).deleted(id) ==> final(self).deleted(id),
    {
        let r = self.sm.remove(client.0).is_some();
        assert(self@ =~= old(self)@.remove(client));
        r
    }

    /// Takes the client `id` out of the container and keeps its place, so
    /// that it can be worked on apart from the others (on another thread,
    /// say) and put back with [`Self::restore`] under the same identifier.
    /// The identifier is not valid meanwhile.
    pub fn take(&mut self, id: ClientId) -> (r: Option<Client>)
        requires
            old(self).wf(),
        ensures
            final(self).wf(),
            forall|other: ClientId| old(self).deleted(other) == final(self).deleted(other),
            final(self)@ == old(self)@.remove(id),
            match r {
                Some(c) => {
                    &&& old(self)@.contains_key(id)
                    &&& c == old(self)@[id]
                    &&& final(self).held_out(id)
                },
                None => !old(self)@.contains_key(id),
            },
            forall|other: ClientId|
                other != id ==> old(self).held_out(other) == final(self).held_out(other),
    {
        let r = self.sm.take(id.0);
        assert(self@ =~= old(self)@.remove(id));
        r
    }

    /// Puts `client` back under the identifier `id` that it was taken from
    /// with [`Self::take`]; hands it back where no client was taken from
    /// there.
    pub fn restore(&mut self, id: ClientId, client: Client) -> (r: Result<(), Client>)
        requires
            old(self).wf(),
        ensures
            final(self).wf(),
            forall|other: ClientId| old(self).deleted(other) == final(self).deleted(other),
            r is Ok <==> old(self).held_out(id),
            match r {
                Ok(_) => final(self)@ == old(self)@.insert(id, client) && !final(self).held_out(
                    id,
                ),
                Err(c) => c == client && final(self)@ == old(self)@,
            },
            forall|other: ClientId|
                other != id ==> old(self).held_out(other) == final(self).held_out(other),
    {
        match self.sm.restore(id.0, client) {
            Ok(_) => {
                assert(self@ =~= old(self)@.insert(id, client));
                Ok(())
            },
            Err(c) => {
                assert(self@ =~= old(self)@);
                Err(c)
            },
        }
    }

    /// Deletes all clients from the server (as if by [`Self::delete`]) for
    /// which `f` returns `false`.
    ///
    /// All clients are visited in an unspecified order.
    pub fn retain<F: Fn(ClientId, &Client) -> bool>(&mut self, f: F)
        requires
            old(self).wf(),
            forall|id: ClientId, c: &Client| #[trigger] f.requires((id, c)),
        ensures
            final(self).wf(),
            forall|id: ClientId| old(self).deleted(id) ==> final(self).deleted(id),
            forall|id: ClientId| #[trigger]
                final(self)@.contains_key(id) ==> old(self)@.contains_key(id) && final(self)@[id]
                    == old(self)@[id] && f.ensures((id, &old(self)@[id]), true),
            forall|id: ClientId|
                old(self)@.contains_key(id) && !(#[trigger] final(self)@.contains_key(id))
                    ==> f.ensures((id, &old(self)@[id]), false) && final(self).deleted(id),
    {
        let keys: Vec<Key> = self.sm.keys();
        let mut i: usize = 0;
        proof {
            assert forall|j: int| 0 <= j < keys@.len() implies self.sm@.contains_key(
                #[trigger] keys@[j],
            ) by {
                assert(keys@.contains(keys@[j]));
            }
        }
        while i < keys.len()
            invariant
                self.wf(),
                i <= keys@.len(),
                keys@.no_duplicates(),
                forall|id: ClientId, c: &Client| #[trigger] f.requires((id, c)),
                forall|k: Key| keys@.contains(k) <==> old(self).sm@.contains_key(k),
                forall|id: ClientId| old(self).deleted(id) ==> self.deleted(id),
                forall|k: Key| #[trigger]
                    self.sm@.contains_key(k) ==> old(self).sm@.contains_key(k) && self.sm@[k]
                        == old(self).sm@[k],
                forall|j: int|
                    0 <= j < i && self.sm@.contains_key(#[trigger] keys@[j]) ==> f.ensures(
                        (ClientId(keys@[j]), &old(self).sm@[keys@[j]]),
                        true,
                    ),
                forall|j: int|
                    0 <= j < i && !self.sm@.contains_key(#[trigger] keys@[j]) ==> f.ensures(
                        (ClientId(keys@[j]), &old(self).sm@[keys@[j]]),
                        false,
                    ) && self.sm.stale(keys@[j]),
                forall|j: int| i <= j < keys@.len() ==> self.sm@.contains_key(#[trigger] keys@[j]),
            decreases keys@.len() - i,
        {
            let k: Key = keys[i];
            assert(keys@.contains(k));
            let keep: bool = match self.sm.get(k) {
                Some(c) => f(ClientId(k), c),
                None => true,
            };
            if !keep {
                self.sm.remove(k);
            }
            i = i + 1;
        }
        proof {
            assert forall|id: ClientId| #[trigger] self@.contains_key(id) implies old(
                self,
            )@.contains_key(id) && self@[id] == old(self)@[id] && f.ensures(
                (id, &old(self)@[id]),
                true,
            ) by {
                assert(keys@.contains(id.0));
                let j = choose|j: int| 0 <= j < keys@.len() && keys@[j] == id.0;
                assert(self.sm@.contains_key(keys@[j]));
            }
            assert forall|id: ClientId|
                old(self)@.contains_key(id) && !(#[trigger] self@.contains_key(
                    id,
                )) implies f.ensures((id, &old(self)@[id]), false) && self.deleted(id) by {
                assert(keys@.contains(id.0));
                let j = choose|j: int| 0 <= j < keys@.len() && keys@[j] == id.0;
                assert(!self.sm@.contains_key(keys@[j]));
            }
        }
    }

    /// Returns the number of clients on the server. This includes clients
    /// which may be disconnected.
    pub fn count(&self) -> (n: usize)
        requires
            self.wf(),
        ensures
            self@.dom().finite(),
            n == self@.dom().len(),
    {
        proof {
            self.sm.lemma_finite();
            let keys = self.sm@.dom();
            let ids = keys.map(|k: Key| ClientId(k));
            assert(ids =~= self@.dom()) by {
                assert forall|id: ClientId| ids.contains(id) <==> self@.dom().contains(id) by {
                    if self@.dom().contains(id) {
                        assert(keys.contains(id.0));
                        assert(ClientId(id.0) == id);
                    }
                }
            }
            vstd::set_lib::lemma_map_size(keys, ids, |k: Key| ClientId(k));
        }
        self.sm.len()
    }

    /// Returns a shared reference to the client with the given ID. If
    /// the ID is invalid, then `None` is returned.
    pub fn get(&self, client: ClientId) -> (r: Option<&Client>)
        requires
            self.wf(),
        ensures
            match r {
                Some(c) => self@.contains_key(client) && *c == self@[client],
                None => !self@.contains_key(client),
            },
    {
        self.sm.get(client.0)
    }

    /// Returns an exclusive reference to the client with the given ID. If the
    /// ID is invalid, then `None` is returned.
    pub fn get_mut(&mut self, client: ClientId) -> (r: Option<&mut Client>)
        requires
            old(self).wf(),
        ensures
            final(self).wf(),
            forall|id: ClientId| old(self).deleted(id) ==> final(self).deleted(id),
            match r {
                Some(c) => {
                    &&& old(self)@.contains_key(client)
                    &&& *c == old(self)@[client]
                    &&& final(self)@ == old(self)@.insert(client, *final(c))
                },
                None => !old(self)@.contains_key(client) && final(self)@ == old(self)@,
            },
    {
        proof {
            assert forall|m: Clients, c: Client|
                #![trigger m@, old(self).sm@.insert(client.0, c)]
                m.sm@ == old(self).sm@.insert(client.0, c) implies m@ == old(self)@.insert(
                client,
                c,
            ) by {
                assert(m@ =~= old(self)@.insert(client, c));
            }
            assert forall|m: Clients| m.sm@ == old(self).sm@ implies #[trigger] m@ == old(
                self,
            )@ by {
                assert(m@ =~= old(self)@);
            }
        }
        self.sm.get_mut(client.0)
    }

    /// The identifiers of all clients on the server, by ascending slot.
    pub fn ids(&self) -> (r: Vec<ClientId>)
        requires
            self.wf(),
        ensures
            r@.no_duplicates(),
            forall|id: ClientId| r@.contains(id) <==> self@.contains_key(id),
            forall|a: int, b: int| 0 <= a < b < r@.len() ==> r@[a].0.index < r@[b].0.index,
    {
        let keys: Vec<Key> = self.sm.keys();
        let mut out: Vec<ClientId> = Vec::new();
        let mut i: usize = 0;
        while i < keys.len()
            invariant
                i <= keys@.len(),
                out@ == Seq::new(i as nat, |j: int| ClientId(keys@[j])),
            decreases keys@.len() - i,
        {
            out.push(ClientId(keys[i]));
            i = i + 1;
        }
        proof {
            assert forall|id: ClientId| out@.contains(id) <==> self@.contains_key(id) by {
                if out@.contains(id) {
                    let j = choose|j: int| 0 <= j < out@.len() && out@[j] == id;
                    assert(keys@.contains(keys@[j]));
                }
                if self@.contains_key(id) {
                    assert(keys@.contains(id.0));
                    let j = choose|j: int| 0 <= j < keys@.len() && keys@[j] == id.0;
                    assert(out@[j] == id);
                }
            }
        }
        out
    }

    /// All clients on the server with their identifiers, by ascending slot.
    pub fn iter(&self) -> (r: Vec<(ClientId, &Client)>)
        requires
            self.wf(),
        ensures
            forall|i: int|
                0 <= i < r@.len() ==> self@.contains_key((#[trigger] r@[i]).0) && *r@[i].1
                    == self@[r@[i].0],
            forall|id: ClientId|
                self@.contains_key(id) ==> exists|i: int|
                    0 <= i < r@.len() && (#[trigger] r@[i]).0 == id,
            forall|a: int, b: int| 0 <= a < b < r@.len() ==> r@[a].0.0.index < r@[b].0.0.index,
    {
        let keys: Vec<Key> = self.sm.keys();
        let mut out: Vec<(ClientId, &Client)> = Vec::new();
        let mut i: usize = 0;
        while i < keys.len()
            invariant
                self.wf(),
                i <= keys@.len(),
                out@.len() == i,
                forall|k: Key| keys@.contains(k) <==> self.sm@.contains_key(k),
                forall|a: int, b: int| 0 <= a < b < keys@.len() ==> keys@[a].index < keys@[b].index,
                forall|j: int|
                    0 <= j < i ==> (#[trigger] out@[j]).0 == ClientId(keys@[j]) && *out@[j].1
                        == self.sm@[keys@[j]],
            decreases keys@.len() - i,
        {
            let k: Key = keys[i];
            assert(keys@.contains(k));
            match self.sm.get(k) {
                Some(c) => out.push((ClientId(k), c)),
                None => {},
            }
            i = i + 1;
        }
        proof {
            assert forall|j: int| 0 <= j < out@.len() implies self@.contains_key(
                (#[trigger] out@[j]).0,
            ) && *out@[j].1 == self@[out@[j].0] by {
                assert(keys@.contains(keys@[j]));
            }
            assert forall|id: ClientId| self@.contains_key(id) implies exists|i: int|
                0 <= i < out@.len() && (#[trigger] out@[i]).0 == id by {
                assert(keys@.contains(id.0));
                let j = choose|j: int| 0 <= j < keys@.len() && keys@[j] == id.0;
                assert(out@[j].0 == id);
            }
        }
        out
    }
}

} // verus!
