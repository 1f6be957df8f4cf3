//! Client-side session decisions: the session lifecycle, the
//! classification of decrypted inbound datagrams, and how a batch of
//! server messages translates into world updates for the simulation.
//!
//! The socket loop itself (non-blocking reads, the secure channel's
//! tick, the actual entity mutations) lives outside this crate; it
//! feeds plain values through these functions and applies the
//! returned actions.

use vstd::prelude::*;
use crate::codec::{copy_bytes, spec_decode, MessageView, MultiplayerMessage, Vec3Bits};

verus! {

/// Client-visible lifecycle of a multiplayer session.
#[derive(Clone, Copy, PartialEq, Eq, Structural, Debug)]
pub enum MultiplayerState {
    Disconnected,
    Disconnecting,
    Connected,
    Connecting,
}

/// The lifecycle is a cycle: a connect request leaves `Disconnected`
/// for `Connecting`; the session becomes `Connected` once the
/// simulation acknowledges it; a local disconnect request enters
/// `Disconnecting`; confirmed teardown returns to `Disconnected`.
pub open spec fn spec_lifecycle_allows(from: MultiplayerState, to: MultiplayerState) -> bool {
    match (from, to) {
        (MultiplayerState::Disconnected, MultiplayerState::Connecting) => true,
        (MultiplayerState::Connecting, MultiplayerState::Connected) => true,
        (MultiplayerState::Connected, MultiplayerState::Disconnecting) => true,
        (MultiplayerState::Disconnecting, MultiplayerState::Disconnected) => true,
        _ => false,
    }
}

/// Whether the session may step from one lifecycle state to another.
pub fn transition_allowed(from: MultiplayerState, to: MultiplayerState) -> (r: bool)
    ensures
        r == spec_lifecycle_allows(from, to),
{
    match (from, to) {
        (MultiplayerState::Disconnected, MultiplayerState::Connecting) => true,
        (MultiplayerState::Connecting, MultiplayerState::Connected) => true,
        (MultiplayerState::Connected, MultiplayerState::Disconnecting) => true,
        (MultiplayerState::Disconnecting, MultiplayerState::Disconnected) => true,
        _ => false,
    }
}

/// Classify one decrypted payload from the server: the event to hand
/// the simulation, or nothing for a datagram that does not decode —
/// such a datagram is dropped, never enqueued.
pub fn inbound_event(payload: &[u8]) -> (r: Option<MultiplayerMessage>)
    ensures
        r is None <==> spec_decode(payload@) is Invalid,
        r matches Some(m) ==> m@ == spec_decode(payload@),
{
    let message = MultiplayerMessage::get(payload);
    match message {
        MultiplayerMessage::Invalid => None,
        _ => Some(message),
    }
}

/// Whether an id occurs in a list of client ids.
pub fn contains_id(ids: &Vec<u64>, id: u64) -> (r: bool)
    ensures
        r == ids@.contains(id),
{
    let mut i: usize = 0;
    while i < ids.len()
        invariant
            i <= ids@.len(),
            forall|j: int| 0 <= j < i ==> ids@[j] != id,
        decreases ids@.len() - i,
    {
        if ids[i] == id {
            return true;
        }
        i = i + 1;
    }
    false
}

/// One mutation of the simulation's world.
pub enum WorldAction {
    /// A player unknown to the world appears.
    Spawn { client_id: u64, name: Vec<u8>, location: Vec3Bits },
    /// A known player's position is overwritten.
    Position { client_id: u64, location: Vec3Bits },
    /// A known player leaves the world.
    Despawn { client_id: u64 },
}

/// Mathematical view of a world mutation.
pub enum WorldActionView {
    Spawn { client_id: u64, name: Seq<u8>, location: Vec3Bits },
    Position { client_id: u64, location: Vec3Bits },
    Despawn { client_id: u64 },
}

impl View for WorldAction {
    type V = WorldActionView;

    open spec fn view(&self) -> WorldActionView {
        match self {
            WorldAction::Spawn { client_id, name, location } => {
                WorldActionView::Spawn {
                    client_id: *client_id,
                    name: name@,
                    location: *location,
                }
            },
            WorldAction::Position { client_id, location } => {
                WorldActionView::Position { client_id: *client_id, location: *location }
            },
            WorldAction::Despawn { client_id } => {
                WorldActionView::Despawn { client_id: *client_id }
            },
        }
    }
}

/// The views of a list of world mutations.
pub open spec fn spec_action_views(s: Seq<WorldAction>) -> Seq<WorldActionView> {
    s.map_values(|a: WorldAction| a@)
}

/// The views of a list of wire messages.
pub open spec fn spec_wire_views(s: Seq<MultiplayerMessage>) -> Seq<MessageView> {
    s.map_values(|m: MultiplayerMessage| m@)
}

/// What one server message does to the world, given which client ids
/// are spawned and which is the first-person player. A `Connect` for
/// an unknown id spawns it; for the own id it (re)positions the
/// first-person player; for any other known id it is ignored as a
/// duplicate. `Disconnect` despawns a known other player; `Move`
/// repositions one. The first-person player is never despawned or
/// moved by echoes of its own messages, and the sentinel does
/// nothing.
pub open spec fn spec_world_action(
    m: MessageView,
    spawned: Seq<u64>,
    own_client_id: u64,
) -> Option<WorldActionView> {
    match m {
        MessageView::Connect { client_id, location, direction: _, name } => {
            if spawned.contains(client_id) {
                if client_id == own_client_id {
                    Some(WorldActionView::Position { client_id, location })
                } else {
                    Option::None
                }
            } else {
                Some(WorldActionView::Spawn { client_id, name, location })
            }
        },
        MessageView::Disconnect { client_id } => {
            if spawned.contains(client_id) && client_id != own_client_id {
                Some(WorldActionView::Despawn { client_id })
            } else {
                Option::None
            }
        },
        MessageView::Move { client_id, location } => {
            if spawned.contains(client_id) && client_id != own_client_id {
                Some(WorldActionView::Position { client_id, location })
            } else {
                Option::None
            }
        },
        MessageView::Invalid => Option::None,
    }
}

/// The world mutations a whole batch of server messages produces, in
/// arrival order, each judged against the spawned set as it stood
/// when the batch began (spawns take effect only after the batch, as
/// deferred commands).
pub open spec fn spec_world_actions(
    msgs: Seq<MessageView>,
    spawned: Seq<u64>,
    own_client_id: u64,
) -> Seq<WorldActionView>
    decreases msgs.len(),
{
    if msgs.len() == 0 {
        Seq::empty()
    } else {
        let rest = spec_world_actions(msgs.drop_last(), spawned, own_client_id);
        match spec_world_action(msgs.last(), spawned, own_client_id) {
            Some(a) => rest.push(a),
            Option::None => rest,
        }
    }
}

/// Decide the world mutation for one server message.
pub fn world_action_for(
    message: &MultiplayerMessage,
    spawned: &Vec<u64>,
    own_client_id: u64,
) -> (r: Option<WorldAction>)
    ensures
        match r {
            Some(a) => spec_world_action(message@, spawned@, own_client_id) == Some(a@),
            Option::None => spec_world_action(message@, spawned@, own_client_id) is None,
        },
{
    match message {
        MultiplayerMessage::Connect { client_id, location, direction: _, name } => {
            if contains_id(spawned, *client_id) {
                if *client_id == own_client_id {
                    Some(WorldAction::Position { client_id: *client_id, location: *location })
                } else {
                    None
                }
            } else {
                Some(
                    WorldAction::Spawn {
                        client_id: *client_id,
                        name: copy_bytes(name),
                        location: *location,
                    },
                )
            }
        },
        MultiplayerMessage::Disconnect { client_id } => {
            if contains_id(spawned, *client_id) && *client_id != own_client_id {
                Some(WorldAction::Despawn { client_id: *client_id })
            } else {
                None
            }
        },
        MultiplayerMessage::Move { client_id, location } => {
            if contains_id(spawned, *client_id) && *client_id != own_client_id {
                Some(WorldAction::Position { client_id: *client_id, location: *location })
            } else {
                None
            }
        },
        MultiplayerMessage::Invalid => None,
    }
}

/// Turn a drained batch of server messages into the world mutations
/// the simulation applies, in order.
pub fn update_world_from_server_messages(
    messages: &Vec<MultiplayerMessage>,
    spawned: &Vec<u64>,
    own_client_id: u64,
) -> (r: Vec<WorldAction>)
    ensures
        spec_action_views(r@) == spec_world_actions(
            spec_wire_views(messages@),
            spawned@,
            own_client_id,
        ),
{
    let mut out: Vec<WorldAction> = Vec::new();
    let ghost views = spec_wire_views(messages@);
    let mut i: usize = 0;
    proof {
        assert(views.subrange(0, 0) =~= Seq::<MessageView>::empty());
        assert(spec_action_views(out@) =~= spec_world_actions(
            views.subrange(0, 0),
            spawned@,
            own_client_id,
        ));
    }
    while i < messages.len()
        invariant
            i <= views.len(),
            views == spec_wire_views(messages@),
            views.len() == messages@.len(),
            spec_action_views(out@) == spec_world_actions(
                views.subrange(0, i as int),
                spawned@,
                own_client_id,
            ),
        decreases views.len() - i,
    {
        let ghost prev_actions = spec_action_views(out@);
        match world_action_for(&messages[i], spawned, own_client_id) {
            Some(action) => {
                let ghost av = action@;
                out.push(action);
                proof {
                    assert(spec_action_views(out@) =~= prev_actions.push(av));
                }
            },
            None => {},
        }
        proof {
            assert(views.subrange(0, (i + 1) as int).drop_last() =~= views.subrange(0, i as int));
            assert(views.subrange(0, (i + 1) as int).last() == views[i as int]);
            assert(views[i as int] == messages@[i as int]@);
        }
        i = i + 1;
    }
    proof {
        assert(views.subrange(0, views.len() as int) =~= views);
    }
    out
}

} // verus!
