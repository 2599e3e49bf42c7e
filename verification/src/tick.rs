//! The server and the phases of its tick: what the clients sent is taken
//! in, the game has its turn, and every client is brought up to date.

use vstd::prelude::*;
use crate::client::egress::updated;
use crate::client::ingress::ingressed;
use crate::client::{Client, ClientId, Clients};
use crate::entity::{swept, Entities, EntityId};
use crate::player_list::{listed, PlayerList, PlayerListEntry};
use crate::s2c::{S2cPlayPacket, S2cView, Text};
use crate::server::SharedServer;
use crate::world::{indexed, world_swept, WorldId, Worlds};

verus! {

/// A server: its configuration and clock, and all that is on it.
pub struct Server {
    pub shared: SharedServer,
    pub clients: Clients,
    pub entities: Entities,
    pub worlds: Worlds,
}

/// What a client is told that finds the game full.
pub fn server_full_reason() -> (r: Text)
    ensures
        r@ == "The server is full!"@,
{
    "The server is full!".to_owned()
}

/// Lets `client` into a game that takes `max_players` players and has
/// `player_count` of them: where there is room, the client is counted and put
/// on the roster `list` (unless it is there); where the game is full, the
/// client is disconnected with [`server_full_reason`] for a reason (the
/// packet that says so is handed to its channel, if it has one), and
/// neither counted nor put on the roster.
pub fn join_game(
    client: &mut Client,
    player_count: &mut usize,
    max_players: usize,
    list: &mut PlayerList,
) -> (joined: bool)
    ensures
        joined == (*old(player_count) < max_players),
        !joined ==> {
            &&& exists|reason: Text|
                reason@ == "The server is full!"@ && #[trigger] old(client)@.sent(
                    S2cView::Plain(S2cPlayPacket::Disconnect { reason }),
                    false,
                ) == final(client)@
            &&& *final(player_count) == *old(player_count)
            &&& final(list).entries@ == old(list).entries@
            &&& final(list).removed@ == old(list).removed@
            &&& !listed(old(list).entries@, old(client)@.uuid) ==> !listed(
                final(list).entries@,
                old(client)@.uuid,
            )
        },
        joined ==> {
            &&& final(client)@ == old(client)@
            &&& *final(player_count) == *old(player_count) + 1
            &&& final(list).removed@ == old(list).removed@
            &&& final(list).entries@ == (if listed(old(list).entries@, old(client)@.uuid) {
                old(list).entries@
            } else {
                old(list).entries@.push(
                    PlayerListEntry {
                        uuid: old(client)@.uuid,
                        username: old(client)@.username,
                        game_mode: old(client)@.new_game_mode,
                        ping: 0,
                        display_name: None,
                        created_this_tick: true,
                        modified_game_mode: false,
                        modified_ping: false,
                        modified_display_name: false,
                    },
                )
            })
        },
{
    if *player_count < max_players {
        *player_count = *player_count + 1;
        let username: String = client.username_owned();
        list.insert(client.uuid(), username, client.game_mode(), 0, None);
        true
    } else {
        let reason: Text = server_full_reason();
        let ghost told = old(client)@.sent(
            S2cView::Plain(S2cPlayPacket::Disconnect { reason }),
            false,
        );
        client.disconnect(reason);
        assert(told == client@);
        false
    }
}

impl Server {
    /// The representation invariant.
    pub open spec fn wf(&self) -> bool {
        self.clients.wf() && self.entities.wf() && self.worlds.wf()
    }

    /// A server with nothing on it.
    pub fn new(shared: SharedServer) -> (r: Server)
        ensures
            r.wf(),
            r.shared == shared,
            r.clients@ == Map::<ClientId, Client>::empty(),
            r.entities@ == Map::<EntityId, crate::entity::Entity>::empty(),
            r.worlds@ == Map::<WorldId, crate::world::World>::empty(),
    {
        Server {
            shared,
            clients: Clients::new(),
            entities: Entities::new(),
            worlds: Worlds::new(),
        }
    }

    /// The ingress phase: every client forgets the events of the last tick
    /// and takes in the packets that waited on its connection.
    pub fn ingress(&mut self)
        requires
            old(self).wf(),
        ensures
            final(self).wf(),
            final(self).shared == old(self).shared,
            final(self).entities == old(self).entities,
            final(self).worlds == old(self).worlds,
            final(self).clients@.dom() == old(self).clients@.dom(),
            forall|id: ClientId| #[trigger]
                final(self).clients@.contains_key(id) ==> ingressed(
                    old(self).clients@[id]@,
                    final(self).clients@[id]@,
                    &old(self).entities,
                ),
    {
        let ids: Vec<ClientId> = self.clients.ids();
        let mut i: usize = 0;
        while i < ids.len()
            invariant
                self.wf(),
                self.shared == old(self).shared,
                self.entities == old(self).entities,
                self.worlds == old(self).worlds,
                i <= ids@.len(),
                ids@.no_duplicates(),
                self.clients@.dom() == old(self).clients@.dom(),
                forall|id: ClientId| ids@.contains(id) <==> self.clients@.contains_key(id),
                forall|j: int|
                    0 <= j < i ==> ingressed(
                        old(self).clients@[#[trigger] ids@[j]]@,
                        self.clients@[ids@[j]]@,
                        &old(self).entities,
                    ),
                forall|j: int|
                    i <= j < ids@.len() ==> self.clients@[#[trigger] ids@[j]] == old(
                        self,
                    ).clients@[ids@[j]],
            decreases ids@.len() - i,
        {
            let id: ClientId = ids[i];
            let ghost before = self.clients@;
            assert(ids@.contains(id));
            match self.clients.get_mut(id) {
                Some(c) => {
                    c.handle_serverbound_packets(&self.entities);
                },
                None => {},
            }
            proof {
                assert(self.clients@.dom() =~= before.dom());
                assert forall|j: int| 0 <= j < i + 1 implies ingressed(
                    old(self).clients@[#[trigger] ids@[j]]@,
                    self.clients@[ids@[j]]@,
                    &old(self).entities,
                ) by {
                    if j < i {
                        assert(ids@[j] != id);
                    }
                }
                assert forall|j: int| i + 1 <= j < ids@.len() implies self.clients@[#[trigger] ids@[j]]
                    == old(self).clients@[ids@[j]] by {
                    assert(ids@[j] != id);
                }
            }
            i = i + 1;
        }
        proof {
            assert forall|id: ClientId| #[trigger]
                self.clients@.contains_key(id) implies ingressed(
                old(self).clients@[id]@,
                self.clients@[id]@,
                &old(self).entities,
            ) by {
                assert(ids@.contains(id));
                let j = choose|j: int| 0 <= j < ids@.len() && ids@[j] == id;
                assert(ingressed(
                    old(self).clients@[ids@[j]]@,
                    self.clients@[ids@[j]]@,
                    &old(self).entities,
                ));
            }
        }
    }

    /// The egress phase: the index of every world is rebuilt from where the
    /// game left the entities, and every client is updated.
    pub fn egress(&mut self)
        requires
            old(self).wf(),
        ensures
            final(self).wf(),
            final(self).shared == old(self).shared,
            final(self).entities == old(self).entities,
            final(self).worlds@.dom() == old(self).worlds@.dom(),
            forall|id: WorldId| #[trigger]
                final(self).worlds@.contains_key(id) ==> indexed(
                    old(self).worlds@[id],
                    final(self).worlds@[id],
                    &old(self).entities,
                    id,
                ),
            final(self).clients@.dom() == old(self).clients@.dom(),
            forall|id: ClientId| #[trigger]
                final(self).clients@.contains_key(id) ==> updated(
                    old(self).clients@[id]@,
                    final(self).clients@[id]@,
                    &final(self).shared,
                    &final(self).entities,
                    &final(self).worlds,
                ),
    {
        self.worlds.update_spatial_indexes(&self.entities);
        let ids: Vec<ClientId> = self.clients.ids();
        let ghost worlds = self.worlds;
        let mut i: usize = 0;
        while i < ids.len()
            invariant
                self.wf(),
                self.shared == old(self).shared,
                self.entities == old(self).entities,
                self.worlds == worlds,
                i <= ids@.len(),
                ids@.no_duplicates(),
                self.clients@.dom() == old(self).clients@.dom(),
                forall|id: ClientId| ids@.contains(id) <==> self.clients@.contains_key(id),
                forall|j: int|
                    0 <= j < i ==> updated(
                        old(self).clients@[#[trigger] ids@[j]]@,
                        self.clients@[ids@[j]]@,
                        &self.shared,
                        &self.entities,
                        &self.worlds,
                    ),
                forall|j: int|
                    i <= j < ids@.len() ==> self.clients@[#[trigger] ids@[j]] == old(
                        self,
                    ).clients@[ids@[j]],
            decreases ids@.len() - i,
        {
            let id: ClientId = ids[i];
            let ghost before = self.clients@;
            assert(ids@.contains(id));
            match self.clients.get_mut(id) {
                Some(c) => {
                    c.update(&self.shared, &self.entities, &self.worlds);
                },
                None => {},
            }
            proof {
                assert(self.clients@.dom() =~= before.dom());
                assert forall|j: int| 0 <= j < i + 1 implies updated(
                    old(self).clients@[#[trigger] ids@[j]]@,
                    self.clients@[ids@[j]]@,
                    &self.shared,
                    &self.entities,
                    &self.worlds,
                ) by {
                    if j < i {
                        assert(ids@[j] != id);
                    }
                }
                assert forall|j: int| i + 1 <= j < ids@.len() implies self.clients@[#[trigger] ids@[j]]
                    == old(self).clients@[ids@[j]] by {
                    assert(ids@[j] != id);
                }
            }
            i = i + 1;
        }
        proof {
            assert forall|id: ClientId| #[trigger]
                self.clients@.contains_key(id) implies updated(
                old(self).clients@[id]@,
                self.clients@[id]@,
                &self.shared,
                &self.entities,
                &self.worlds,
            ) by {
                assert(ids@.contains(id));
                let j = choose|j: int| 0 <= j < ids@.len() && ids@[j] == id;
                assert(updated(
                    old(self).clients@[ids@[j]]@,
                    self.clients@[ids@[j]]@,
                    &self.shared,
                    &self.entities,
                    &self.worlds,
                ));
            }
        }
    }

    /// The sweep phase: what was modified this tick is forgotten on every
    /// entity and in every world, and the clock moves on by one tick.
    pub fn sweep(&mut self)
        requires
            old(self).wf(),
        ensures
            final(self).wf(),
            final(self).clients == old(self).clients,
            final(self).shared.tick_rate == old(self).shared.tick_rate,
            final(self).shared.dimensions == old(self).shared.dimensions,
            final(self).shared.biomes == old(self).shared.biomes,
            final(self).shared.current_tick == (if old(self).shared.current_tick < i64::MAX {
                (old(self).shared.current_tick + 1) as i64
            } else {
                i64::MAX
            }),
            final(self).entities@.dom() == old(self).entities@.dom(),
            forall|id: EntityId| #[trigger]
                final(self).entities@.contains_key(id) ==> swept(
                    old(self).entities@[id],
                    final(self).entities@[id],
                ),
            final(self).worlds@.dom() == old(self).worlds@.dom(),
            forall|id: WorldId| #[trigger]
                final(self).worlds@.contains_key(id) ==> world_swept(
                    old(self).worlds@[id],
                    final(self).worlds@[id],
                ),
    {
        self.entities.clear_modifications();
        self.worlds.clear_modifications();
        if self.shared.current_tick < i64::MAX {
            self.shared.current_tick = self.shared.current_tick + 1;
        }
    }
}

} // verus!
