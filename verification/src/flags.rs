//! The dirty bits of a client, packed in one 16-bit word.

use vstd::prelude::*;

verus! {

/// One of the bits a client keeps.
#[derive(Clone, Copy, PartialEq, Eq, Debug, Structural)]
pub enum ClientFlag {
    /// A respawn is pending.
    Spawn,
    Sneaking,
    Sprinting,
    JumpingWithHorse,
    OnGround,
    /// Position, yaw or pitch were set by the game this tick.
    TeleportedThisTick,
    /// The spawn position or its yaw were set this tick.
    ModifiedSpawnPosition,
    /// The last keep-alive sent was answered.
    GotKeepalive,
    Hardcore,
    AttackSpeedModified,
    MovementSpeedModified,
    VelocityModified,
}

/// The bits of a client.
#[derive(Clone, Copy, PartialEq, Eq, Debug)]
pub struct ClientFlags {
    bits: u16,
}

/// Whether bit `i` of `bits` is set.
#[verifier::opaque]
pub closed spec fn bit_of(bits: u16, i: u16) -> bool {
    (bits >> i) & 1 == 1
}

/// `bits` with bit `i` set to `v`.
#[verifier::opaque]
pub closed spec fn with_bit(bits: u16, i: u16, v: bool) -> u16 {
    if v {
        bits | (1u16 << i)
    } else {
        bits & !(1u16 << i)
    }
}

proof fn lemma_with_bit(bits: u16, i: u16, j: u16, v: bool)
    requires
        i < 16,
        j < 16,
    ensures
        bit_of(with_bit(bits, i, v), j) == (if i == j {
            v
        } else {
            bit_of(bits, j)
        }),
{
    reveal(bit_of);
    reveal(with_bit);
    assert(((bits | (1u16 << i)) >> j) & 1 == 1 <==> (i == j || (bits >> j) & 1 == 1))
        by (bit_vector)
        requires
            i < 16,
            j < 16,
    ;
    assert(((bits & !(1u16 << i)) >> j) & 1 == 1 <==> (i != j && (bits >> j) & 1 == 1))
        by (bit_vector)
        requires
            i < 16,
            j < 16,
    ;
}

impl ClientFlag {
    /// The position of the flag in the word.
    pub open spec fn bit(self) -> u16 {
        match self {
            ClientFlag::Spawn => 0,
            ClientFlag::Sneaking => 1,
            ClientFlag::Sprinting => 2,
            ClientFlag::JumpingWithHorse => 3,
            ClientFlag::OnGround => 4,
            ClientFlag::TeleportedThisTick => 5,
            ClientFlag::ModifiedSpawnPosition => 6,
            ClientFlag::GotKeepalive => 7,
            ClientFlag::Hardcore => 8,
            ClientFlag::AttackSpeedModified => 9,
            ClientFlag::MovementSpeedModified => 10,
            ClientFlag::VelocityModified => 11,
        }
    }

    /// The position of the flag in the word.
    pub fn index(self) -> (r: u16)
        ensures
            r == self.bit(),
            r < 12,
    {
        match self {
            ClientFlag::Spawn => 0,
            ClientFlag::Sneaking => 1,
            ClientFlag::Sprinting => 2,
            ClientFlag::JumpingWithHorse => 3,
            ClientFlag::OnGround => 4,
            ClientFlag::TeleportedThisTick => 5,
            ClientFlag::ModifiedSpawnPosition => 6,
            ClientFlag::GotKeepalive => 7,
            ClientFlag::Hardcore => 8,
            ClientFlag::AttackSpeedModified => 9,
            ClientFlag::MovementSpeedModified => 10,
            ClientFlag::VelocityModified => 11,
        }
    }
}

/// What [`ClientFlags`] are in contracts: each flag by its name.
pub struct FlagsView {
    /// A respawn is pending.
    pub spawn: bool,
    pub sneaking: bool,
    pub sprinting: bool,
    pub jumping_with_horse: bool,
    pub on_ground: bool,
    /// Position, yaw or pitch were set by the game this tick.
    pub teleported_this_tick: bool,
    /// The spawn position or its yaw were set this tick.
    pub modified_spawn_position: bool,
    /// The last keep-alive sent was answered.
    pub got_keepalive: bool,
    pub hardcore: bool,
    pub attack_speed_modified: bool,
    pub movement_speed_modified: bool,
    pub velocity_modified: bool,
}

impl FlagsView {
    /// No flag set.
    pub open spec fn none() -> FlagsView {
        FlagsView {
            spawn: false,
            sneaking: false,
            sprinting: false,
            jumping_with_horse: false,
            on_ground: false,
            teleported_this_tick: false,
            modified_spawn_position: false,
            got_keepalive: false,
            hardcore: false,
            attack_speed_modified: false,
            movement_speed_modified: false,
            velocity_modified: false,
        }
    }

    /// Whether `flag` is set.
    pub open spec fn get(self, flag: ClientFlag) -> bool {
        match flag {
            ClientFlag::Spawn => self.spawn,
            ClientFlag::Sneaking => self.sneaking,
            ClientFlag::Sprinting => self.sprinting,
            ClientFlag::JumpingWithHorse => self.jumping_with_horse,
            ClientFlag::OnGround => self.on_ground,
            ClientFlag::TeleportedThisTick => self.teleported_this_tick,
            ClientFlag::ModifiedSpawnPosition => self.modified_spawn_position,
            ClientFlag::GotKeepalive => self.got_keepalive,
            ClientFlag::Hardcore => self.hardcore,
            ClientFlag::AttackSpeedModified => self.attack_speed_modified,
            ClientFlag::MovementSpeedModified => self.movement_speed_modified,
            ClientFlag::VelocityModified => self.velocity_modified,
        }
    }

    /// The flags with `flag` set to `value`.
    pub open spec fn with(self, flag: ClientFlag, value: bool) -> FlagsView {
        match flag {
            ClientFlag::Spawn => FlagsView { spawn: value, ..self },
            ClientFlag::Sneaking => FlagsView { sneaking: value, ..self },
            ClientFlag::Sprinting => FlagsView { sprinting: value, ..self },
            ClientFlag::JumpingWithHorse => FlagsView { jumping_with_horse: value, ..self },
            ClientFlag::OnGround => FlagsView { on_ground: value, ..self },
            ClientFlag::TeleportedThisTick => FlagsView { teleported_this_tick: value, ..self },
            ClientFlag::ModifiedSpawnPosition => FlagsView {
                modified_spawn_position: value,
                ..self
            },
            ClientFlag::GotKeepalive => FlagsView { got_keepalive: value, ..self },
            ClientFlag::Hardcore => FlagsView { hardcore: value, ..self },
            ClientFlag::AttackSpeedModified => FlagsView { attack_speed_modified: value, ..self },
            ClientFlag::MovementSpeedModified => FlagsView {
                movement_speed_modified: value,
                ..self
            },
            ClientFlag::VelocityModified => FlagsView { velocity_modified: value, ..self },
        }
    }
}

/// The flags that the word `bits` holds.
pub open spec fn unpack(bits: u16) -> FlagsView {
    FlagsView {
        spawn: bit_of(bits, 0),
        sneaking: bit_of(bits, 1),
        sprinting: bit_of(bits, 2),
        jumping_with_horse: bit_of(bits, 3),
        on_ground: bit_of(bits, 4),
        teleported_this_tick: bit_of(bits, 5),
        modified_spawn_position: bit_of(bits, 6),
        got_keepalive: bit_of(bits, 7),
        hardcore: bit_of(bits, 8),
        attack_speed_modified: bit_of(bits, 9),
        movement_speed_modified: bit_of(bits, 10),
        velocity_modified: bit_of(bits, 11),
    }
}

/// What setting bit `i` does to each of the twelve bits in use.
proof fn lemma_frame(bits: u16, i: u16, value: bool)
    requires
        i < 12,
    ensures
        bit_of(with_bit(bits, i, value), 0) == (if i == 0 { value } else { bit_of(bits, 0) }),
        bit_of(with_bit(bits, i, value), 1) == (if i == 1 { value } else { bit_of(bits, 1) }),
        bit_of(with_bit(bits, i, value), 2) == (if i == 2 { value } else { bit_of(bits, 2) }),
        bit_of(with_bit(bits, i, value), 3) == (if i == 3 { value } else { bit_of(bits, 3) }),
        bit_of(with_bit(bits, i, value), 4) == (if i == 4 { value } else { bit_of(bits, 4) }),
        bit_of(with_bit(bits, i, value), 5) == (if i == 5 { value } else { bit_of(bits, 5) }),
        bit_of(with_bit(bits, i, value), 6) == (if i == 6 { value } else { bit_of(bits, 6) }),
        bit_of(with_bit(bits, i, value), 7) == (if i == 7 { value } else { bit_of(bits, 7) }),
        bit_of(with_bit(bits, i, value), 8) == (if i == 8 { value } else { bit_of(bits, 8) }),
        bit_of(with_bit(bits, i, value), 9) == (if i == 9 { value } else { bit_of(bits, 9) }),
        bit_of(with_bit(bits, i, value), 10) == (if i == 10 { value } else { bit_of(bits, 10) }),
        bit_of(with_bit(bits, i, value), 11) == (if i == 11 { value } else { bit_of(bits, 11) }),
{
    lemma_with_bit(bits, i, 0, value);
    lemma_with_bit(bits, i, 1, value);
    lemma_with_bit(bits, i, 2, value);
    lemma_with_bit(bits, i, 3, value);
    lemma_with_bit(bits, i, 4, value);
    lemma_with_bit(bits, i, 5, value);
    lemma_with_bit(bits, i, 6, value);
    lemma_with_bit(bits, i, 7, value);
    lemma_with_bit(bits, i, 8, value);
    lemma_with_bit(bits, i, 9, value);
    lemma_with_bit(bits, i, 10, value);
    lemma_with_bit(bits, i, 11, value);
}

/// Setting a bit of the word sets the flag that stands there.
proof fn lemma_unpack_with(bits: u16, flag: ClientFlag, value: bool)
    ensures
        unpack(with_bit(bits, flag.bit(), value)) == unpack(bits).with(flag, value),
        unpack(bits).get(flag) == bit_of(bits, flag.bit()),
{
    lemma_frame(bits, flag.bit(), value);
    let after = unpack(with_bit(bits, flag.bit(), value));
    let before = unpack(bits);
    match flag {
        ClientFlag::Spawn => assert(after == FlagsView { spawn: value, ..before }),
        ClientFlag::Sneaking => assert(after == FlagsView { sneaking: value, ..before }),
        ClientFlag::Sprinting => assert(after == FlagsView { sprinting: value, ..before }),
        ClientFlag::JumpingWithHorse => assert(after == FlagsView {
            jumping_with_horse: value,
            ..before
        }),
        ClientFlag::OnGround => assert(after == FlagsView { on_ground: value, ..before }),
        ClientFlag::TeleportedThisTick => assert(after == FlagsView {
            teleported_this_tick: value,
            ..before
        }),
        ClientFlag::ModifiedSpawnPosition => assert(after == FlagsView {
            modified_spawn_position: value,
            ..before
        }),
        ClientFlag::GotKeepalive => assert(after == FlagsView { got_keepalive: value, ..before }),
        ClientFlag::Hardcore => assert(after == FlagsView { hardcore: value, ..before }),
        ClientFlag::AttackSpeedModified => assert(after == FlagsView {
            attack_speed_modified: value,
            ..before
        }),
        ClientFlag::MovementSpeedModified => assert(after == FlagsView {
            movement_speed_modified: value,
            ..before
        }),
        ClientFlag::VelocityModified => assert(after == FlagsView {
            velocity_modified: value,
            ..before
        }),
    }
}

impl View for ClientFlags {
    type V = FlagsView;

    closed spec fn view(&self) -> FlagsView {
        unpack(self.bits)
    }
}

impl ClientFlags {
    /// No flag set.
    pub fn new() -> (r: ClientFlags)
        ensures
            r@ == FlagsView::none(),
    {
        assert forall|i: u16| i < 16 implies !bit_of(0u16, i) by {
            reveal(bit_of);
            assert((0u16 >> i) & 1 != 1) by (bit_vector);
        }
        ClientFlags { bits: 0 }
    }

    /// Whether `flag` is set.
    pub fn get(&self, flag: ClientFlag) -> (r: bool)
        ensures
            r == self@.get(flag),
    {
        proof {
            lemma_unpack_with(self.bits, flag, true);
            reveal(bit_of);
        }
        (self.bits >> flag.index()) & 1 == 1
    }

    /// Sets `flag` to `value` and leaves the others as they are.
    pub fn set(&mut self, flag: ClientFlag, value: bool)
        ensures
            final(self)@ == old(self)@.with(flag, value),
    {
        let i: u16 = flag.index();
        proof {
            lemma_unpack_with(self.bits, flag, value);
            reveal(with_bit);
        }
        if value {
            self.bits = self.bits | (1u16 << i);
        } else {
            self.bits = self.bits & !(1u16 << i);
        }
    }

    /// These flags with `flag` set to `value`.
    pub fn with(self, flag: ClientFlag, value: bool) -> (r: ClientFlags)
        ensures
            r@ == self@.with(flag, value),
    {
        let mut r = self;
        r.set(flag, value);
        r
    }
}

} // verus!
