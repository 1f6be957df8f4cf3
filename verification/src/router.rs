//! Server-side message routing: how secure-channel events mutate the
//! authoritative registry, which outbound messages they queue, and
//! how queued messages fan out to the connected clients.
//!
//! A queued message carries a `Destination`; destinations are
//! resolved against the live connected-id set only when the queue is
//! flushed, so a client that disconnects mid-tick is naturally
//! excluded.

use vstd::prelude::*;
use crate::codec::{
    copy_bytes, spec_decode, spec_encodable, spec_encode, spec_vec3_zero, MessageView,
    MultiplayerMessage,
};
use crate::registry::{
    initialise_new_player, spec_next_num, spec_spawn_location, spec_user_data_name, PlayerView,
    Registry, Username, NETCODE_USER_DATA_BYTES,
};

verus! {

/// Which connected clients an outbound message is for.
#[derive(Clone, Copy, PartialEq, Eq, Structural, Debug)]
pub enum Destination {
    /// Exactly this client, if still connected.
    Player(u64),
    /// Every connected client but this one.
    NotPlayer(u64),
    /// Every connected client.
    All,
}

/// Whether a destination selects a given client.
pub open spec fn spec_dest_matches(dest: Destination, client_id: u64) -> bool {
    match dest {
        Destination::All => true,
        Destination::Player(id) => id == client_id,
        Destination::NotPlayer(id) => id != client_id,
    }
}

/// The ids a destination selects from the connected set, in order.
pub open spec fn spec_route(dest: Destination, clients: Seq<u64>) -> Seq<u64> {
    clients.filter(|cid: u64| spec_dest_matches(dest, cid))
}

/// A secure-channel event the routing logic reacts to. Events that
/// carry only transport packets to forward (and the no-event case)
/// never touch the registry and are handled where the socket lives.
pub enum ServerEvent {
    /// A decrypted application payload from an authenticated client.
    Payload { client_id: u64, payload: Vec<u8> },
    /// A new authenticated connection, with its user-data blob.
    ClientConnected { client_id: u64, user_data: Vec<u8> },
    /// A connection was torn down.
    ClientDisconnected { client_id: u64 },
}

/// The views of a queue of destination-tagged messages.
pub open spec fn spec_message_views(s: Seq<(Destination, MultiplayerMessage)>) -> Seq<
    (Destination, MessageView),
> {
    s.map_values(|p: (Destination, MultiplayerMessage)| (p.0, p.1@))
}

/// The replay a newcomer receives: one `Connect` describing each
/// already-present player, in registry order, addressed to the
/// newcomer alone.
pub open spec fn spec_replay_views(reg: Seq<(u64, PlayerView)>, new_client_id: u64) -> Seq<
    (Destination, MessageView),
>
    decreases reg.len(),
{
    if reg.len() == 0 {
        Seq::empty()
    } else {
        let rest = spec_replay_views(reg.drop_last(), new_client_id);
        let e = reg.last();
        if e.0 == new_client_id {
            rest
        } else {
            rest.push(
                (
                    Destination::Player(new_client_id),
                    MessageView::Connect {
                        client_id: e.0,
                        location: e.1.location,
                        direction: e.1.direction,
                        name: e.1.name,
                    },
                ),
            )
        }
    }
}

/// Resolve a destination against the connected-id set: `All` keeps
/// every id, `Player` exactly that id if present, `NotPlayer` all
/// but that id.
pub fn resolve_destination(dest: Destination, clients: &Vec<u64>) -> (r: Vec<u64>)
    ensures
        r@ == spec_route(dest, clients@),
{
    let mut out: Vec<u64> = Vec::new();
    let mut i: usize = 0;
    proof {
        reveal(Seq::filter);
        assert(clients@.subrange(0, 0) =~= Seq::<u64>::empty());
    }
    while i < clients.len()
        invariant
            i <= clients@.len(),
            out@ == spec_route(dest, clients@.subrange(0, i as int)),
        decreases clients@.len() - i,
    {
        let cid = clients[i];
        let selected = match dest {
            Destination::All => true,
            Destination::Player(id) => id == cid,
            Destination::NotPlayer(id) => id != cid,
        };
        if selected {
            out.push(cid);
        }
        proof {
            reveal(Seq::filter);
            assert(clients@.subrange(0, (i + 1) as int).drop_last() =~= clients@.subrange(
                0,
                i as int,
            ));
        }
        i = i + 1;
    }
    proof {
        assert(clients@.subrange(0, clients@.len() as int) =~= clients@);
    }
    out
}

/// Queue the `Disconnect` broadcast for a departed client.
pub fn push_disconnect_client_messages(
    disconnect_client_id: u64,
    messages_to_deliver: &mut Vec<(Destination, MultiplayerMessage)>,
)
    ensures
        spec_message_views(final(messages_to_deliver)@) == spec_message_views(
            old(messages_to_deliver)@,
        ).push((Destination::All, MessageView::Disconnect { client_id: disconnect_client_id })),
{
    messages_to_deliver.push(
        (Destination::All, MultiplayerMessage::Disconnect { client_id: disconnect_client_id }),
    );
    proof {
        assert(spec_message_views(messages_to_deliver@) =~= spec_message_views(
            old(messages_to_deliver)@,
        ).push((Destination::All, MessageView::Disconnect { client_id: disconnect_client_id })));
    }
}

/// Queue the announcements for a player that just joined: its own
/// `Connect` broadcast to everyone (the newcomer included, as its
/// spawn confirmation), then the replay of every other player's
/// `Connect` to the newcomer alone.
pub fn push_new_client_messages(
    new_client_id: u64,
    messages_to_deliver: &mut Vec<(Destination, MultiplayerMessage)>,
    players: &Registry,
)
    requires
        players.wf(),
        players.spec_contains(new_client_id),
    ensures
        spec_message_views(final(messages_to_deliver)@) == spec_message_views(
            old(messages_to_deliver)@,
        ).push(
            (
                Destination::All,
                MessageView::Connect {
                    client_id: new_client_id,
                    location: players.spec_get(new_client_id).location,
                    direction: players.spec_get(new_client_id).direction,
                    name: players.spec_get(new_client_id).name,
                },
            ),
        ) + spec_replay_views(players@, new_client_id),
{
    let new_player = match players.get(new_client_id) {
        Some(p) => p,
        None => {
            proof {
                assert(false);
            }
            unreached()
        },
    };
    messages_to_deliver.push(
        (
            Destination::All,
            MultiplayerMessage::Connect {
                client_id: new_client_id,
                location: new_player.location,
                direction: new_player.direction,
                name: copy_bytes(&new_player.name),
            },
        ),
    );
    let ghost base = spec_message_views(messages_to_deliver@);
    let mut i: usize = 0;
    proof {
        assert(spec_message_views(messages_to_deliver@) =~= spec_message_views(
            old(messages_to_deliver)@,
        ).push(
            (
                Destination::All,
                MessageView::Connect {
                    client_id: new_client_id,
                    location: players.spec_get(new_client_id).location,
                    direction: players.spec_get(new_client_id).direction,
                    name: players.spec_get(new_client_id).name,
                },
            ),
        ));
        assert(players@.subrange(0, 0) =~= Seq::<(u64, PlayerView)>::empty());
    }
    while i < players.len()
        invariant
            i <= players@.len(),
            spec_message_views(messages_to_deliver@) == base + spec_replay_views(
                players@.subrange(0, i as int),
                new_client_id,
            ),
        decreases players@.len() - i,
    {
        let cid = players.id_at(i);
        let ghost prev_views = spec_message_views(messages_to_deliver@);
        if cid != new_client_id {
            let existing = players.player_at(i);
            messages_to_deliver.push(
                (
                    Destination::Player(new_client_id),
                    MultiplayerMessage::Connect {
                        client_id: cid,
                        location: existing.location,
                        direction: existing.direction,
                        name: copy_bytes(&existing.name),
                    },
                ),
            );
        }
        proof {
            assert(players@.subrange(0, (i + 1) as int).drop_last() =~= players@.subrange(
                0,
                i as int,
            ));
            assert(players@.subrange(0, (i + 1) as int).last() == players@[i as int]);
            let entry = players@[i as int];
            let replayed = (
                Destination::Player(new_client_id),
                MessageView::Connect {
                    client_id: entry.0,
                    location: entry.1.location,
                    direction: entry.1.direction,
                    name: entry.1.name,
                },
            );
            if cid != new_client_id {
                assert(spec_message_views(messages_to_deliver@) =~= prev_views.push(replayed));
                assert(spec_replay_views(players@.subrange(0, (i + 1) as int), new_client_id)
                    == spec_replay_views(players@.subrange(0, i as int), new_client_id).push(
                    replayed,
                ));
                assert(prev_views.push(replayed) =~= base + spec_replay_views(
                    players@.subrange(0, (i + 1) as int),
                    new_client_id,
                ));
            } else {
                assert(spec_replay_views(players@.subrange(0, (i + 1) as int), new_client_id)
                    == spec_replay_views(players@.subrange(0, i as int), new_client_id));
            }
        }
        i = i + 1;
    }
    proof {
        assert(players@.subrange(0, players@.len() as int) =~= players@);
    }
}

/// React to one secure-channel event, the server's authoritative
/// step. A `Move` payload from a client with a record overwrites
/// that record's location — the sender's record, as asserted by the
/// secure channel, never the id embedded in the payload — and queues
/// the move for everyone else (no self-echo). `Connect` and
/// `Disconnect` payloads are server-authoritative message kinds, so
/// receiving one from a client is a protocol violation and mutates
/// nothing, as does a payload for an unknown client or one that does
/// not decode. A new connection gets a fresh record under the next
/// spawn slot and the join announcements; a teardown drops the
/// record — harmlessly when none exists — and queues the
/// `Disconnect` broadcast either way.
pub fn handle_server_result(
    server_result: ServerEvent,
    messages_to_deliver: &mut Vec<(Destination, MultiplayerMessage)>,
    players: &mut Registry,
)
    requires
        old(players).wf(),
        server_result matches ServerEvent::ClientConnected { user_data, .. } ==> user_data@.len()
            == NETCODE_USER_DATA_BYTES,
    ensures
        final(players).wf(),
        match server_result {
            ServerEvent::Payload { client_id, payload } => match spec_decode(payload@) {
                MessageView::Move { client_id: _, location } => {
                    if old(players).spec_contains(client_id) {
                        &&& exists|i: int|
                            0 <= i < old(players)@.len() && old(players)@[i].0 == client_id && final(players)@ == old(players)@.update(
                                i,
                                (
                                    client_id,
                                    PlayerView {
                                        location: location,
                                        direction: old(players)@[i].1.direction,
                                        name: old(players)@[i].1.name,
                                        num: old(players)@[i].1.num,
                                    },
                                ),
                            )
                        &&& spec_message_views(final(messages_to_deliver)@)
                            == spec_message_views(old(messages_to_deliver)@).push(
                            (
                                Destination::NotPlayer(client_id),
                                MessageView::Move { client_id, location },
                            ),
                        )
                    } else {
                        &&& final(players)@ == old(players)@
                        &&& final(messages_to_deliver)@ == old(messages_to_deliver)@
                    }
                },
                _ => final(players)@ == old(players)@ && final(messages_to_deliver)@ == old(messages_to_deliver)@,
            },
            ServerEvent::ClientConnected { client_id, user_data } => {
                let name = spec_user_data_name(user_data@);
                let num = spec_next_num(old(players)@);
                let joined = PlayerView {
                    location: spec_spawn_location(num),
                    direction: spec_vec3_zero(),
                    name: name,
                    num: num,
                };
                &&& !old(players).spec_contains(client_id) ==> final(players)@ == old(players)@.push((client_id, joined))
                &&& old(players).spec_contains(client_id) ==> exists|i: int|
                    0 <= i < old(players)@.len() && old(players)@[i].0 == client_id && final(players)@ == old(players)@.update(i, (client_id, joined))
                &&& spec_message_views(final(messages_to_deliver)@) == spec_message_views(
                    old(messages_to_deliver)@,
                ).push(
                    (
                        Destination::All,
                        MessageView::Connect {
                            client_id: client_id,
                            location: joined.location,
                            direction: joined.direction,
                            name: name,
                        },
                    ),
                ) + spec_replay_views(final(players)@, client_id)
            },
            ServerEvent::ClientDisconnected { client_id } => {
                &&& !final(players).spec_contains(client_id)
                &&& old(players).spec_contains(client_id) ==> exists|i: int|
                    0 <= i < old(players)@.len() && old(players)@[i].0 == client_id && final(players)@ == old(players)@.remove(i)
                &&& !old(players).spec_contains(client_id) ==> final(players)@ == old(players)@
                &&& spec_message_views(final(messages_to_deliver)@) == spec_message_views(
                    old(messages_to_deliver)@,
                ).push((Destination::All, MessageView::Disconnect { client_id }))
            },
        },
{
    match server_result {
        ServerEvent::Payload { client_id, payload } => {
            let mess = MultiplayerMessage::get(payload.as_slice());
            match mess {
                MultiplayerMessage::Move { client_id: _, location } => {
                    let found = players.set_location(client_id, location);
                    if found {
                        messages_to_deliver.push(
                            (
                                Destination::NotPlayer(client_id),
                                MultiplayerMessage::Move { client_id, location },
                            ),
                        );
                        proof {
                            assert(spec_message_views(messages_to_deliver@) =~= spec_message_views(
                                old(messages_to_deliver)@,
                            ).push(
                                (
                                    Destination::NotPlayer(client_id),
                                    MessageView::Move { client_id, location },
                                ),
                            ));
                        }
                    }
                },
                _ => {
                    // a client may not send Connect or Disconnect, and an
                    // undecodable payload is dropped
                },
            }
        },
        ServerEvent::ClientConnected { client_id, user_data } => {
            let username = Username::from_user_data(user_data.as_slice());
            let player = initialise_new_player(players, username.0);
            players.insert(client_id, player);
            proof {
                let i = choose|i: int|
                    0 <= i < players@.len() && players@[i].0 == client_id;
                players.lemma_get_at(i);
            }
            push_new_client_messages(client_id, messages_to_deliver, players);
        },
        ServerEvent::ClientDisconnected { client_id } => {
            players.remove(client_id);
            push_disconnect_client_messages(client_id, messages_to_deliver);
        },
    }
}

/// The views of a send plan: who gets which bytes.
pub open spec fn spec_plan_views(s: Seq<(u64, Vec<u8>)>) -> Seq<(u64, Seq<u8>)> {
    s.map_values(|p: (u64, Vec<u8>)| (p.0, p.1@))
}

/// What one queued message contributes to the plan: its encoding,
/// once per selected client; nothing when it cannot be encoded.
pub open spec fn spec_block(dest: Destination, m: MessageView, clients: Seq<u64>) -> Seq<
    (u64, Seq<u8>),
> {
    if spec_encodable(m) {
        spec_route(dest, clients).map_values(|cid: u64| (cid, spec_encode(m)))
    } else {
        Seq::empty()
    }
}

/// The whole flush: every queued message's contribution, in queue
/// order.
pub open spec fn spec_send_plan(
    msgs: Seq<(Destination, MessageView)>,
    clients: Seq<u64>,
) -> Seq<(u64, Seq<u8>)>
    decreases msgs.len(),
{
    if msgs.len() == 0 {
        Seq::empty()
    } else {
        spec_send_plan(msgs.drop_last(), clients) + spec_block(
            msgs.last().0,
            msgs.last().1,
            clients,
        )
    }
}

/// Flush the outbound queue against the connected-id set: encode
/// each message once, resolve its destination, and list every
/// (recipient, encoded bytes) send in order. A message that cannot
/// be encoded contributes nothing.
pub fn build_send_plan(
    messages_to_deliver: &Vec<(Destination, MultiplayerMessage)>,
    clients: &Vec<u64>,
) -> (r: Vec<(u64, Vec<u8>)>)
    ensures
        spec_plan_views(r@) == spec_send_plan(
            spec_message_views(messages_to_deliver@),
            clients@,
        ),
{
    let mut plan: Vec<(u64, Vec<u8>)> = Vec::new();
    let ghost views = spec_message_views(messages_to_deliver@);
    let mut i: usize = 0;
    proof {
        assert(views.subrange(0, 0) =~= Seq::<(Destination, MessageView)>::empty());
        assert(spec_plan_views(plan@) =~= spec_send_plan(views.subrange(0, 0), clients@));
    }
    while i < messages_to_deliver.len()
        invariant
            i <= views.len(),
            views == spec_message_views(messages_to_deliver@),
            views.len() == messages_to_deliver@.len(),
            spec_plan_views(plan@) == spec_send_plan(views.subrange(0, i as int), clients@),
        decreases views.len() - i,
    {
        let dest = messages_to_deliver[i].0;
        let message = &messages_to_deliver[i].1;
        let ghost base = spec_plan_views(plan@);
        match message.get_buf() {
            Ok(buf) => {
                let recipients = resolve_destination(dest, clients);
                let mut j: usize = 0;
                proof {
                    assert(base + spec_block(dest, message@, clients@).subrange(0, 0) =~= base);
                }
                while j < recipients.len()
                    invariant
                        j <= recipients@.len(),
                        recipients@ == spec_route(dest, clients@),
                        spec_encodable(message@),
                        buf@ == spec_encode(message@),
                        spec_block(dest, message@, clients@).len() == recipients@.len(),
                        spec_plan_views(plan@) == base + spec_block(
                            dest,
                            message@,
                            clients@,
                        ).subrange(0, j as int),
                    decreases recipients@.len() - j,
                {
                    let ghost prev_views = spec_plan_views(plan@);
                    let recipient = recipients[j];
                    plan.push((recipient, copy_bytes(&buf)));
                    proof {
                        let block = spec_block(dest, message@, clients@);
                        assert(block[j as int] == (recipients@[j as int], spec_encode(message@)));
                        assert(spec_plan_views(plan@) =~= prev_views.push(block[j as int]));
                        assert(block.subrange(0, (j + 1) as int) =~= block.subrange(
                            0,
                            j as int,
                        ).push(block[j as int]));
                        assert(prev_views.push(block[j as int]) =~= base + block.subrange(
                            0,
                            (j + 1) as int,
                        ));
                    }
                    j = j + 1;
                }
                proof {
                    let block = spec_block(dest, message@, clients@);
                    assert(block.subrange(0, block.len() as int) =~= block);
                }
            },
            Err(_) => {
                // the queue never holds the sentinel and join names fit
                // the buffer, but an unencodable entry would simply be
                // skipped
                proof {
                    assert(spec_block(dest, message@, clients@) =~= Seq::<(u64, Seq<u8>)>::empty());
                    assert(base + spec_block(dest, message@, clients@) =~= base);
                }
            },
        }
        proof {
            assert(views.subrange(0, (i + 1) as int).drop_last() =~= views.subrange(0, i as int));
            assert(views[i as int] == (dest, message@));
        }
        i = i + 1;
    }
    proof {
        assert(views.subrange(0, views.len() as int) =~= views);
    }
    plan
}

} // verus!
