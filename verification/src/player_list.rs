//! The player list: the roster that clients show in their tab overlay.

use vstd::prelude::*;
use crate::event::GameMode;
use crate::outbox::{lemma_extend_emit, lemma_extend_extend, lemma_extend_nothing, Outbox};
use crate::s2c::{S2cPlayPacket, S2cView, Text};

verus! {

/// One player of the roster.
#[derive(Debug)]
pub struct PlayerListEntry {
    pub uuid: u128,
    pub username: String,
    pub game_mode: GameMode,
    pub ping: i32,
    pub display_name: Option<Text>,
    /// Whether the entry was added this tick.
    pub created_this_tick: bool,
    pub modified_game_mode: bool,
    pub modified_ping: bool,
    pub modified_display_name: bool,
}

/// The roster of a world.
#[derive(Debug)]
pub struct PlayerList {
    pub entries: Vec<PlayerListEntry>,
    /// The players removed this tick.
    pub removed: Vec<u128>,
}

/// The packet that adds `e` to a client's roster.
pub open spec fn add_packet(e: PlayerListEntry) -> S2cView {
    S2cView::Plain(
        S2cPlayPacket::PlayerInfoAddPlayer {
            uuid: e.uuid,
            username: e.username,
            game_mode: e.game_mode,
            ping: e.ping,
            display_name: e.display_name,
        },
    )
}

/// The packets that bring a client's roster up to date with `e`: the whole
/// entry where it is new, else one packet for each thing that changed.
pub open spec fn entry_diff(e: PlayerListEntry) -> Seq<S2cView> {
    if e.created_this_tick {
        seq![add_packet(e)]
    } else {
        let mode = if e.modified_game_mode {
            seq![
                S2cView::Plain(
                    S2cPlayPacket::PlayerInfoUpdateGameMode { uuid: e.uuid, game_mode: e.game_mode },
                ),
            ]
        } else {
            Seq::empty()
        };
        let ping = if e.modified_ping {
            seq![
                S2cView::Plain(S2cPlayPacket::PlayerInfoUpdateLatency { uuid: e.uuid, ping: e.ping }),
            ]
        } else {
            Seq::empty()
        };
        let name = if e.modified_display_name {
            seq![
                S2cView::Plain(
                    S2cPlayPacket::PlayerInfoUpdateDisplayName {
                        uuid: e.uuid,
                        display_name: e.display_name,
                    },
                ),
            ]
        } else {
            Seq::empty()
        };
        mode + ping + name
    }
}

/// One add packet for each of `entries`, in order.
pub open spec fn initial_stream(entries: Seq<PlayerListEntry>) -> Seq<S2cView> {
    Seq::new(entries.len(), |i: int| add_packet(entries[i]))
}

/// One remove packet for each of `removed`, in order.
pub open spec fn removal_stream(removed: Seq<u128>) -> Seq<S2cView> {
    Seq::new(
        removed.len(),
        |i: int| S2cView::Plain(S2cPlayPacket::PlayerInfoRemovePlayer { uuid: removed[i] }),
    )
}

/// The diffs of `entries`, in order.
pub open spec fn entries_diff(entries: Seq<PlayerListEntry>) -> Seq<S2cView>
    decreases entries.len(),
{
    if entries.len() == 0 {
        Seq::empty()
    } else {
        entries_diff(entries.drop_last()) + entry_diff(entries.last())
    }
}

/// Whether `uuid` is among `entries`.
pub open spec fn listed(entries: Seq<PlayerListEntry>, uuid: u128) -> bool {
    exists|i: int| 0 <= i < entries.len() && #[trigger] entries[i].uuid == uuid
}

/// Whether `i` is the first place in `entries` where `uuid` stands.
pub open spec fn first_at(entries: Seq<PlayerListEntry>, uuid: u128, i: int) -> bool {
    &&& 0 <= i < entries.len()
    &&& entries[i].uuid == uuid
    &&& forall|j: int| 0 <= j < i ==> (#[trigger] entries[j]).uuid != uuid
}

/// A copy of `name`.
fn copy_name(name: &Option<Text>) -> (r: Option<Text>)
    ensures
        r == *name,
{
    match name {
        Some(s) => Some(s.clone()),
        None => None,
    }
}

impl PlayerList {
    /// What a client that has seen nothing of the roster is sent.
    pub open spec fn initial_spec(&self) -> Seq<S2cView> {
        initial_stream(self.entries@)
    }

    /// What a client that saw the roster of the last tick is sent: the
    /// removals, then the diff of each entry.
    pub open spec fn diff_spec(&self) -> Seq<S2cView> {
        removal_stream(self.removed@) + entries_diff(self.entries@)
    }

    /// An empty roster.
    pub fn new() -> (r: PlayerList)
        ensures
            r.entries@ == Seq::<PlayerListEntry>::empty(),
            r.removed@ == Seq::<u128>::empty(),
    {
        PlayerList { entries: Vec::new(), removed: Vec::new() }
    }

    /// Where `uuid` stands in the roster.
    pub fn position(&self, uuid: u128) -> (r: Option<usize>)
        ensures
            match r {
                Some(i) => first_at(self.entries@, uuid, i as int),
                None => !listed(self.entries@, uuid),
            },
    {
        let mut i: usize = 0;
        while i < self.entries.len()
            invariant
                i <= self.entries@.len(),
                forall|j: int| 0 <= j < i ==> (#[trigger] self.entries@[j]).uuid != uuid,
            decreases self.entries@.len() - i,
        {
            if self.entries[i].uuid == uuid {
                return Some(i);
            }
            i = i + 1;
        }
        None
    }

    /// Whether `uuid` is in the roster.
    pub fn contains(&self, uuid: u128) -> (r: bool)
        ensures
            r == listed(self.entries@, uuid),
    {
        self.position(uuid).is_some()
    }

    /// Adds a player to the roster; `false`, and nothing changed, if the
    /// roster has the player already.
    pub fn insert(
        &mut self,
        uuid: u128,
        username: String,
        game_mode: GameMode,
        ping: i32,
        display_name: Option<Text>,
    ) -> (r: bool)
        ensures
            r == !listed(old(self).entries@, uuid),
            final(self).removed@ == old(self).removed@,
            r ==> final(self).entries@ == old(self).entries@.push(
                PlayerListEntry {
                    uuid,
                    username,
                    game_mode,
                    ping,
                    display_name,
                    created_this_tick: true,
                    modified_game_mode: false,
                    modified_ping: false,
                    modified_display_name: false,
                },
            ),
            !r ==> final(self).entries@ == old(self).entries@,
    {
        if self.contains(uuid) {
            return false;
        }
        self.entries.push(
            PlayerListEntry {
                uuid,
                username,
                game_mode,
                ping,
                display_name,
                created_this_tick: true,
                modified_game_mode: false,
                modified_ping: false,
                modified_display_name: false,
            },
        );
        true
    }

    /// Removes a player from the roster; `false`, and nothing changed, if
    /// the roster lacks the player.
    pub fn remove(&mut self, uuid: u128) -> (r: bool)
        ensures
            r == listed(old(self).entries@, uuid),
            !r ==> final(self).entries@ == old(self).entries@ && final(self).removed@ == old(self).removed@,
            r ==> exists|i: int|
                #![trigger old(self).entries@[i]]
                first_at(old(self).entries@, uuid, i) && final(self).entries@ == old(self).entries@.remove(i) && final(self).removed@ == (if old(self).entries@[i].created_this_tick {
                    old(self).removed@
                } else {
                    old(self).removed@.push(uuid)
                }),
    {
        match self.position(uuid) {
            Some(i) => {
                let e = self.entries.remove(i);
                if !e.created_this_tick {
                    self.removed.push(uuid);
                }
                assert(first_at(old(self).entries@, uuid, i as int));
                true
            },
            None => false,
        }
    }

    /// Hands `out` what a client that has seen nothing of the roster is sent.
    pub fn initial_packets(&self, out: &mut Outbox)
        ensures
            final(out)@ == old(out)@.extend(self.initial_spec()),
    {
        let mut i: usize = 0;
        proof {
            lemma_extend_nothing(out@);
        }
        while i < self.entries.len()
            invariant
                i <= self.entries@.len(),
                out@ == old(out)@.extend(self.initial_spec().subrange(0, i as int)),
            decreases self.entries@.len() - i,
        {
            let e: &PlayerListEntry = &self.entries[i];
            let p = S2cPlayPacket::PlayerInfoAddPlayer {
                uuid: e.uuid,
                username: e.username.clone(),
                game_mode: e.game_mode,
                ping: e.ping,
                display_name: copy_name(&e.display_name),
            };
            proof {
                let stream = self.initial_spec();
                lemma_extend_emit(old(out)@, stream.subrange(0, i as int), p@);
                assert(stream.subrange(0, i as int).push(p@) =~= stream.subrange(0, i + 1));
            }
            out.emit(p);
            i = i + 1;
        }
        proof {
            let stream = self.initial_spec();
            assert(stream.subrange(0, i as int) =~= stream);
        }
    }

    /// Hands `out` the diff of one entry.
    fn entry_packets(e: &PlayerListEntry, out: &mut Outbox)
        ensures
            final(out)@ == old(out)@.extend(entry_diff(*e)),
    {
        if e.created_this_tick {
            out.emit(
                S2cPlayPacket::PlayerInfoAddPlayer {
                    uuid: e.uuid,
                    username: e.username.clone(),
                    game_mode: e.game_mode,
                    ping: e.ping,
                    display_name: copy_name(&e.display_name),
                },
            );
        } else {
            if e.modified_game_mode {
                out.emit(
                    S2cPlayPacket::PlayerInfoUpdateGameMode { uuid: e.uuid, game_mode: e.game_mode },
                );
            }
            if e.modified_ping {
                out.emit(S2cPlayPacket::PlayerInfoUpdateLatency { uuid: e.uuid, ping: e.ping });
            }
            if e.modified_display_name {
                out.emit(
                    S2cPlayPacket::PlayerInfoUpdateDisplayName {
                        uuid: e.uuid,
                        display_name: copy_name(&e.display_name),
                    },
                );
            }
        }
        assert(out@ =~= old(out)@.extend(entry_diff(*e)));
    }

    /// Hands `out` what a client that saw the roster of the last tick is sent.
    pub fn diff_packets(&self, out: &mut Outbox)
        ensures
            final(out)@ == old(out)@.extend(self.diff_spec()),
    {
        let mut i: usize = 0;
        proof {
            lemma_extend_nothing(out@);
        }
        while i < self.removed.len()
            invariant
                i <= self.removed@.len(),
                out@ == old(out)@.extend(removal_stream(self.removed@).subrange(0, i as int)),
            decreases self.removed@.len() - i,
        {
            let p = S2cPlayPacket::PlayerInfoRemovePlayer { uuid: self.removed[i] };
            proof {
                let stream = removal_stream(self.removed@);
                lemma_extend_emit(old(out)@, stream.subrange(0, i as int), p@);
                assert(stream.subrange(0, i as int).push(p@) =~= stream.subrange(0, i + 1));
            }
            out.emit(p);
            i = i + 1;
        }
        proof {
            let stream = removal_stream(self.removed@);
            assert(stream.subrange(0, i as int) =~= stream);
            assert(self.entries@.subrange(0, 0) =~= Seq::<PlayerListEntry>::empty());
            assert(stream + Seq::<S2cView>::empty() =~= stream);
        }
        let mut k: usize = 0;
        while k < self.entries.len()
            invariant
                k <= self.entries@.len(),
                out@ == old(out)@.extend(
                    removal_stream(self.removed@) + entries_diff(
                        self.entries@.subrange(0, k as int),
                    ),
                ),
            decreases self.entries@.len() - k,
        {
            let ghost before = out@;
            PlayerList::entry_packets(&self.entries[k], out);
            proof {
                let head = removal_stream(self.removed@);
                let done = entries_diff(self.entries@.subrange(0, k as int));
                let next = self.entries@.subrange(0, k + 1);
                assert(next.drop_last() =~= self.entries@.subrange(0, k as int));
                assert(next.last() == self.entries@[k as int]);
                lemma_extend_extend(old(out)@, head + done, entry_diff(self.entries@[k as int]));
                assert((head + done) + entry_diff(self.entries@[k as int]) =~= head + (done
                    + entry_diff(self.entries@[k as int])));
            }
            k = k + 1;
        }
        proof {
            assert(self.entries@.subrange(0, k as int) =~= self.entries@);
        }
    }

    /// The end of a tick: nothing is new or modified any more, and the
    /// removals are forgotten.
    pub fn clear_modifications(&mut self)
        ensures
            final(self).removed@ == Seq::<u128>::empty(),
            final(self).entries@.len() == old(self).entries@.len(),
            forall|i: int|
                0 <= i < old(self).entries@.len() ==> (#[trigger] final(self).entries@[i])
                    == (PlayerListEntry {
                    created_this_tick: false,
                    modified_game_mode: false,
                    modified_ping: false,
                    modified_display_name: false,
                    ..old(self).entries@[i]
                }),
    {
        self.removed.clear();
        let mut i: usize = 0;
        while i < self.entries.len()
            invariant
                i <= self.entries@.len(),
                self.removed@ == Seq::<u128>::empty(),
                self.entries@.len() == old(self).entries@.len(),
                forall|j: int|
                    0 <= j < i ==> (#[trigger] self.entries@[j]) == (PlayerListEntry {
                        created_this_tick: false,
                        modified_game_mode: false,
                        modified_ping: false,
                        modified_display_name: false,
                        ..old(self).entries@[j]
                    }),
                forall|j: int|
                    i <= j < self.entries@.len() ==> (#[trigger] self.entries@[j]) == old(self).entries@[j],
            decreases self.entries@.len() - i,
        {
            let e: &mut PlayerListEntry = &mut self.entries[i];
            e.created_this_tick = false;
            e.modified_game_mode = false;
            e.modified_ping = false;
            e.modified_display_name = false;
            i = i + 1;
        }
    }
}

} // verus!
