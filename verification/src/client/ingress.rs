//! What a client sent, turned into events and into changes of its state.

use vstd::prelude::*;
use crate::c2s::{
    BlockFace, C2sPlayPacket, InteractKind, PlayerActionStatus, PlayerCommandId,
};
use crate::channel::{receiver_len, try_recv};
use crate::client::{Client, ClientView};
use crate::entity::Entities;
use crate::event::{DiggingStatus, Event, InteractWithEntityKind, Settings};
use crate::fixed::Fixed;
use crate::flags::{ClientFlag, FlagsView};
use crate::geometry::{BlockPos, Vec3};
use crate::wire::{to_unsigned, unsigned_bits};
use crate::STANDARD_TPS;

verus! {

/// The jump boost `raw` held to `0..=100`.
pub open spec fn jump_boost_spec(raw: i32) -> u8 {
    if raw < 0 {
        0u8
    } else if raw > 100 {
        100u8
    } else {
        raw as u8
    }
}

/// `a - b` modulo 2^32.
pub open spec fn wrapping_diff(a: u32, b: u32) -> u32 {
    if a >= b {
        (a - b) as u32
    } else {
        (a - b + 0x1_0000_0000) as u32
    }
}

impl ClientView {
    /// The client with one more event in its queue.
    pub open spec fn with_event(self, e: Event) -> ClientView {
        ClientView { events: self.events.push(e), ..self }
    }

    /// The identifier that the next teleport confirmation must carry: that
    /// of the oldest teleport not yet confirmed.
    pub open spec fn expected_teleport_id(self) -> u32 {
        wrapping_diff(self.teleport_id_counter, self.pending_teleports)
    }

    /// The client after a teleport confirmation: one teleport fewer is
    /// pending where one was and the identifier is the expected one; the
    /// client is disconnected otherwise.
    pub open spec fn accept_teleport(self, teleport_id: i32) -> ClientView {
        if self.pending_teleports == 0 {
            self.disconnected()
        } else if unsigned_bits(teleport_id) == self.expected_teleport_id() {
            ClientView { pending_teleports: (self.pending_teleports - 1) as u32, ..self }
        } else {
            self.disconnected()
        }
    }

    /// The client after a movement packet: nothing happens while a teleport
    /// is pending; otherwise the client is where it says, with the velocity
    /// that the step gives at the nominal tick rate, and a movement event
    /// tells of it.
    pub open spec fn moved(self, position: Vec3, yaw: Fixed, pitch: Fixed, on_ground: bool)
        -> ClientView {
        if self.pending_teleports != 0 {
            self
        } else {
            let velocity = position.minus(self.new_position).times(STANDARD_TPS);
            ClientView {
                new_position: position,
                velocity,
                yaw,
                pitch,
                flags: FlagsView { on_ground, ..self.flags },
                events: self.events.push(
                    Event::Movement {
                        old_position: self.new_position,
                        old_velocity: self.velocity,
                        old_yaw: self.yaw,
                        old_pitch: self.pitch,
                        old_on_ground: self.flags.on_ground,
                        new_position: position,
                        new_velocity: velocity,
                        new_yaw: yaw,
                        new_pitch: pitch,
                        new_on_ground: on_ground,
                    },
                ),
                ..self
            }
        }
    }

    /// The client after a keep-alive answer: disconnected where none was
    /// awaited or the identifier is not that of the last keep-alive sent.
    pub open spec fn keepalive_answered(self, id: i64) -> ClientView {
        if self.flags.got_keepalive {
            self.disconnected()
        } else if id != self.last_keepalive_id {
            self.disconnected()
        } else {
            ClientView { flags: FlagsView { got_keepalive: true, ..self.flags }, ..self }
        }
    }

    /// The client after a player command: sneaking, sprinting and jumping
    /// with a horse give an event only where they change, and a command for
    /// what the client does already changes nothing.
    pub open spec fn commanded(self, action: PlayerCommandId, jump_boost: i32) -> ClientView {
        match action {
            PlayerCommandId::StartSneaking => if self.flags.sneaking {
                self
            } else {
                ClientView {
                    flags: FlagsView { sneaking: true, ..self.flags },
                    ..self
                }.with_event(Event::StartSneaking)
            },
            PlayerCommandId::StopSneaking => if !self.flags.sneaking {
                self
            } else {
                ClientView {
                    flags: FlagsView { sneaking: false, ..self.flags },
                    ..self
                }.with_event(Event::StopSneaking)
            },
            PlayerCommandId::LeaveBed => self.with_event(Event::LeaveBed),
            PlayerCommandId::StartSprinting => if self.flags.sprinting {
                self
            } else {
                ClientView {
                    flags: FlagsView { sprinting: true, ..self.flags },
                    ..self
                }.with_event(Event::StartSprinting)
            },
            PlayerCommandId::StopSprinting => if !self.flags.sprinting {
                self
            } else {
                ClientView {
                    flags: FlagsView { sprinting: false, ..self.flags },
                    ..self
                }.with_event(Event::StopSprinting)
            },
            PlayerCommandId::StartJumpWithHorse => if self.flags.jumping_with_horse {
                self
            } else {
                ClientView {
                    flags: FlagsView { jumping_with_horse: true, ..self.flags },
                    ..self
                }.with_event(
                    Event::StartJumpWithHorse { jump_boost: jump_boost_spec(jump_boost) },
                )
            },
            PlayerCommandId::StopJumpWithHorse => if !self.flags.jumping_with_horse {
                self
            } else {
                ClientView {
                    flags: FlagsView { jumping_with_horse: false, ..self.flags },
                    ..self
                }.with_event(Event::StopJumpWithHorse)
            },
            PlayerCommandId::OpenHorseInventory => self.with_event(Event::OpenHorseInventory),
            PlayerCommandId::StartFlyingWithElytra => self.with_event(
                Event::StartFlyingWithElytra,
            ),
        }
    }

    /// The client after a player action: the sequence number is kept for
    /// acknowledgement, whatever it is, and a digging event tells of the
    /// three actions that are digging.
    pub open spec fn acted(
        self,
        status: PlayerActionStatus,
        location: BlockPos,
        face: BlockFace,
        sequence: i32,
    ) -> ClientView {
        let noted = ClientView { dug_blocks: self.dug_blocks.push(sequence), ..self };
        match status {
            PlayerActionStatus::StartedDigging => noted.with_event(
                Event::Digging { status: DiggingStatus::Start, position: location, face },
            ),
            PlayerActionStatus::CancelledDigging => noted.with_event(
                Event::Digging { status: DiggingStatus::Cancel, position: location, face },
            ),
            PlayerActionStatus::FinishedDigging => noted.with_event(
                Event::Digging { status: DiggingStatus::Finish, position: location, face },
            ),
            _ => noted,
        }
    }

    /// The client after the packet `pkt`.
    pub open spec fn after_packet(self, entities: &Entities, pkt: C2sPlayPacket) -> ClientView {
        match pkt {
            C2sPlayPacket::AcceptTeleportation { teleport_id } => self.accept_teleport(teleport_id),
            C2sPlayPacket::Chat { message, timestamp } => self.with_event(
                Event::ChatMessage { message, timestamp },
            ),
            C2sPlayPacket::ClientInformation {
                locale,
                view_distance,
                chat_mode,
                chat_colors,
                displayed_skin_parts,
                main_hand,
                allow_server_listings,
            } => ClientView {
                settings: Some(
                    Settings {
                        locale,
                        view_distance,
                        chat_mode,
                        chat_colors,
                        main_hand,
                        displayed_skin_parts,
                        allow_server_listings,
                    },
                ),
                ..self
            }.with_event(Event::SettingsChanged(self.settings)),
            C2sPlayPacket::Interact { entity_id, kind, sneaking } => match entities.with_network_id(
                entity_id,
            ) {
                Some(id) => self.with_event(
                    Event::InteractWithEntity {
                        id,
                        sneaking,
                        kind: match kind {
                            InteractKind::Interact(hand) => InteractWithEntityKind::Interact(hand),
                            InteractKind::Attack => InteractWithEntityKind::Attack,
                            InteractKind::InteractAt { target, hand } => {
                                InteractWithEntityKind::InteractAt { target, hand }
                            },
                        },
                    },
                ),
                None => self,
            },
            C2sPlayPacket::KeepAlive { id } => self.keepalive_answered(id),
            C2sPlayPacket::MovePlayerPosition { position, on_ground } => self.moved(
                position,
                self.yaw,
                self.pitch,
                on_ground,
            ),
            C2sPlayPacket::MovePlayerPositionAndRotation { position, yaw, pitch, on_ground } => {
                self.moved(position, yaw, pitch, on_ground)
            },
            C2sPlayPacket::MovePlayerRotation { yaw, pitch, on_ground } => self.moved(
                self.new_position,
                yaw,
                pitch,
                on_ground,
            ),
            C2sPlayPacket::MovePlayerStatusOnly { on_ground } => self.moved(
                self.new_position,
                self.yaw,
                self.pitch,
                on_ground,
            ),
            C2sPlayPacket::MoveVehicle { position, yaw, pitch } => self.moved(
                position,
                yaw,
                pitch,
                self.flags.on_ground,
            ),
            C2sPlayPacket::PaddleBoat { left_paddle_turning, right_paddle_turning } => {
                self.with_event(Event::SteerBoat { left_paddle_turning, right_paddle_turning })
            },
            C2sPlayPacket::PlayerAction { status, location, face, sequence } => self.acted(
                status,
                location,
                face,
                sequence,
            ),
            C2sPlayPacket::PlayerCommand { entity_id, action_id, jump_boost } => self.commanded(
                action_id,
                jump_boost,
            ),
            C2sPlayPacket::Swing { hand } => self.with_event(Event::ArmSwing(hand)),
            _ => self,
        }
    }

    /// The client after the packets `pkts`, from the `from`-th on.
    pub open spec fn after_packets(
        self,
        entities: &Entities,
        pkts: Seq<C2sPlayPacket>,
        from: int,
    ) -> ClientView
        decreases pkts.len() - from,
    {
        if from < 0 || from >= pkts.len() {
            self
        } else {
            self.after_packet(entities, pkts[from]).after_packets(entities, pkts, from + 1)
        }
    }

    /// The client after an ingress phase in which the packets `pkts` were
    /// taken from its connection: the events of the last tick are gone, and
    /// the packets were handled in order.
    pub open spec fn ingress(self, entities: &Entities, pkts: Seq<C2sPlayPacket>) -> ClientView {
        ClientView { events: Seq::empty(), ..self }.after_packets(entities, pkts, 0)
    }
}

/// Whether `after` is `before` after an ingress phase, whatever packets
/// were taken from the connection.
#[verifier::opaque]
pub open spec fn ingressed(before: ClientView, after: ClientView, entities: &Entities) -> bool {
    exists|pkts: Seq<C2sPlayPacket>| after == before.ingress(entities, pkts)
}

/// The jump boost `raw` held to `0..=100`.
fn jump_boost(raw: i32) -> (r: u8)
    ensures
        r == jump_boost_spec(raw),
{
    if raw < 0 {
        0
    } else if raw > 100 {
        100
    } else {
        raw as u8
    }
}

impl Client {
    /// Queues `e` behind the events that wait to be popped.
    pub fn push_event(&mut self, e: Event)
        ensures
            final(self)@ == old(self)@.with_event(e),
    {
        self.events.push_back(e);
    }

    fn handle_movement_packet(
        &mut self,
        new_position: Vec3,
        new_yaw: Fixed,
        new_pitch: Fixed,
        new_on_ground: bool,
    )
        ensures
            final(self)@ == old(self)@.moved(new_position, new_yaw, new_pitch, new_on_ground),
    {
        if self.pending_teleports == 0 {
            // Movement packets should be coming in at a rate of STANDARD_TPS.
            let new_velocity = new_position.saturating_sub(self.new_position).saturating_scale(
                STANDARD_TPS,
            );
            let event = Event::Movement {
                old_position: self.new_position,
                old_velocity: self.velocity,
                old_yaw: self.yaw,
                old_pitch: self.pitch,
                old_on_ground: self.flags.get(ClientFlag::OnGround),
                new_position,
                new_velocity,
                new_yaw,
                new_pitch,
                new_on_ground,
            };
            self.new_position = new_position;
            self.velocity = new_velocity;
            self.yaw = new_yaw;
            self.pitch = new_pitch;
            self.flags.set(ClientFlag::OnGround, new_on_ground);
            self.events.push_back(event);
        }
    }

    fn handle_accept_teleportation(&mut self, teleport_id: i32)
        ensures
            final(self)@ == old(self)@.accept_teleport(teleport_id),
    {
        if self.pending_teleports == 0 {
            self.disconnect_no_reason();
            return;
        }
        let got: u32 = to_unsigned(teleport_id);
        let expected: u32 = self.teleport_id_counter.wrapping_sub(self.pending_teleports);
        if got == expected {
            self.pending_teleports = self.pending_teleports - 1;
        } else {
            self.disconnect_no_reason();
        }
    }

    fn handle_keepalive(&mut self, id: i64)
        ensures
            final(self)@ == old(self)@.keepalive_answered(id),
    {
        if self.flags.get(ClientFlag::GotKeepalive) {
            self.disconnect_no_reason();
        } else if id != self.last_keepalive_id {
            self.disconnect_no_reason();
        } else {
            self.flags.set(ClientFlag::GotKeepalive, true);
        }
    }

    fn handle_player_command(&mut self, action: PlayerCommandId, boost: i32)
        ensures
            final(self)@ == old(self)@.commanded(action, boost),
    {
        match action {
            PlayerCommandId::StartSneaking => {
                if self.flags.get(ClientFlag::Sneaking) {
                    return;
                }
                self.flags.set(ClientFlag::Sneaking, true);
                self.push_event(Event::StartSneaking);
            },
            PlayerCommandId::StopSneaking => {
                if !self.flags.get(ClientFlag::Sneaking) {
                    return;
                }
                self.flags.set(ClientFlag::Sneaking, false);
                self.push_event(Event::StopSneaking);
            },
            PlayerCommandId::LeaveBed => self.push_event(Event::LeaveBed),
            PlayerCommandId::StartSprinting => {
                if self.flags.get(ClientFlag::Sprinting) {
                    return;
                }
                self.flags.set(ClientFlag::Sprinting, true);
                self.push_event(Event::StartSprinting);
            },
            PlayerCommandId::StopSprinting => {
                if !self.flags.get(ClientFlag::Sprinting) {
                    return;
                }
                self.flags.set(ClientFlag::Sprinting, false);
                self.push_event(Event::StopSprinting);
            },
            PlayerCommandId::StartJumpWithHorse => {
                if self.flags.get(ClientFlag::JumpingWithHorse) {
                    return;
                }
                self.flags.set(ClientFlag::JumpingWithHorse, true);
                self.push_event(Event::StartJumpWithHorse { jump_boost: jump_boost(boost) });
            },
            PlayerCommandId::StopJumpWithHorse => {
                if !self.flags.get(ClientFlag::JumpingWithHorse) {
                    return;
                }
                self.flags.set(ClientFlag::JumpingWithHorse, false);
                self.push_event(Event::StopJumpWithHorse);
            },
            PlayerCommandId::OpenHorseInventory => self.push_event(Event::OpenHorseInventory),
            PlayerCommandId::StartFlyingWithElytra => self.push_event(
                Event::StartFlyingWithElytra,
            ),
        }
    }

    fn handle_player_action(
        &mut self,
        status: PlayerActionStatus,
        location: BlockPos,
        face: BlockFace,
        sequence: i32,
    )
        ensures
            final(self)@ == old(self)@.acted(status, location, face, sequence),
    {
        self.dug_blocks.push(sequence);
        match status {
            PlayerActionStatus::StartedDigging => self.push_event(
                Event::Digging { status: DiggingStatus::Start, position: location, face },
            ),
            PlayerActionStatus::CancelledDigging => self.push_event(
                Event::Digging { status: DiggingStatus::Cancel, position: location, face },
            ),
            PlayerActionStatus::FinishedDigging => self.push_event(
                Event::Digging { status: DiggingStatus::Finish, position: location, face },
            ),
            PlayerActionStatus::DropItemStack => {},
            PlayerActionStatus::DropItem => {},
            PlayerActionStatus::ShootArrowOrFinishEating => {},
            PlayerActionStatus::SwapItemInHand => {},
        }
    }

    /// Handles one packet from the client.
    pub fn handle_serverbound_packet(&mut self, entities: &Entities, pkt: C2sPlayPacket)
        requires
            entities.wf(),
        ensures
            final(self)@ == old(self)@.after_packet(entities, pkt),
    {
        match pkt {
            C2sPlayPacket::AcceptTeleportation { teleport_id } => {
                self.handle_accept_teleportation(teleport_id);
            },
            C2sPlayPacket::Chat { message, timestamp } => {
                self.push_event(Event::ChatMessage { message, timestamp });
            },
            C2sPlayPacket::ClientInformation {
                locale,
                view_distance,
                chat_mode,
                chat_colors,
                displayed_skin_parts,
                main_hand,
                allow_server_listings,
            } => {
                let mut settings = Some(
                    Settings {
                        locale,
                        view_distance,
                        chat_mode,
                        chat_colors,
                        main_hand,
                        displayed_skin_parts,
                        allow_server_listings,
                    },
                );
                std::mem::swap(&mut self.settings, &mut settings);
                self.push_event(Event::SettingsChanged(settings));
            },
            C2sPlayPacket::Interact { entity_id, kind, sneaking } => {
                match entities.get_with_network_id(entity_id) {
                    Some(id) => {
                        self.push_event(
                            Event::InteractWithEntity {
                                id,
                                sneaking,
                                kind: match kind {
                                    InteractKind::Interact(hand) => {
                                        InteractWithEntityKind::Interact(hand)
                                    },
                                    InteractKind::Attack => InteractWithEntityKind::Attack,
                                    InteractKind::InteractAt { target, hand } => {
                                        InteractWithEntityKind::InteractAt { target, hand }
                                    },
                                },
                            },
                        );
                    },
                    None => {},
                }
            },
            C2sPlayPacket::KeepAlive { id } => {
                self.handle_keepalive(id);
            },
            C2sPlayPacket::MovePlayerPosition { position, on_ground } => {
                self.handle_movement_packet(position, self.yaw, self.pitch, on_ground);
            },
            C2sPlayPacket::MovePlayerPositionAndRotation { position, yaw, pitch, on_ground } => {
                self.handle_movement_packet(position, yaw, pitch, on_ground);
            },
            C2sPlayPacket::MovePlayerRotation { yaw, pitch, on_ground } => {
                self.handle_movement_packet(self.new_position, yaw, pitch, on_ground);
            },
            C2sPlayPacket::MovePlayerStatusOnly { on_ground } => {
                self.handle_movement_packet(self.new_position, self.yaw, self.pitch, on_ground);
            },
            C2sPlayPacket::MoveVehicle { position, yaw, pitch } => {
                let on_ground = self.flags.get(ClientFlag::OnGround);
                self.handle_movement_packet(position, yaw, pitch, on_ground);
            },
            C2sPlayPacket::PaddleBoat { left_paddle_turning, right_paddle_turning } => {
                self.push_event(Event::SteerBoat { left_paddle_turning, right_paddle_turning });
            },
            C2sPlayPacket::PlayerAction { status, location, face, sequence } => {
                self.handle_player_action(status, location, face, sequence);
            },
            C2sPlayPacket::PlayerCommand { entity_id, action_id, jump_boost } => {
                self.handle_player_command(action_id, jump_boost);
            },
            C2sPlayPacket::Swing { hand } => {
                self.push_event(Event::ArmSwing(hand));
            },
            _ => {},
        }
    }

    /// Takes packets from the client's connection until it has none or
    /// `budget` packets were taken: however fast a client sends, no more is
    /// taken from it than the budget.
    pub fn take_inbound(&self, budget: usize) -> (r: Vec<C2sPlayPacket>)
        ensures
            r@.len() <= budget,
    {
        let mut out: Vec<C2sPlayPacket> = Vec::new();
        let mut i: usize = 0;
        while i < budget
            invariant
                out@.len() <= i <= budget,
            decreases budget - i,
        {
            match try_recv(&self.recv) {
                Some(pkt) => out.push(pkt),
                None => {
                    break ;
                },
            }
            i = i + 1;
        }
        out
    }

    /// Forgets the events of the last tick and handles `pkts` in order.
    pub fn handle_packets(&mut self, entities: &Entities, pkts: Vec<C2sPlayPacket>)
        requires
            entities.wf(),
        ensures
            final(self)@ == old(self)@.ingress(entities, pkts@),
    {
        self.events.clear();
        let ghost start = self@;
        let ghost all = pkts@;
        for pkt in it: pkts
            invariant
                entities.wf(),
                it.seq() == all,
                start.after_packets(entities, all, 0) == self@.after_packets(
                    entities,
                    all,
                    it.index() as int,
                ),
        {
            self.handle_serverbound_packet(entities, pkt);
        }
    }

    /// The ingress phase of a tick: forgets the events of the last tick,
    /// then handles the packets that waited on the connection when the phase
    /// began, and no more than those.
    pub fn handle_serverbound_packets(&mut self, entities: &Entities)
        requires
            entities.wf(),
        ensures
            ingressed(old(self)@, final(self)@, entities),
    {
        let budget: usize = receiver_len(&self.recv);
        let pkts: Vec<C2sPlayPacket> = self.take_inbound(budget);
        let ghost taken = pkts@;
        self.handle_packets(entities, pkts);
        proof {
            reveal(ingressed);
            assert(self@ == old(self)@.ingress(entities, taken));
        }
    }
}

} // verus!
