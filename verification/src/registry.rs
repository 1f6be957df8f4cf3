//! The server's authoritative player registry: who is connected,
//! where they stand, and which spawn slot they were given.
//!
//! Records are kept in insertion order under unique client ids. A new
//! player's spawn index is the current high-water mark plus one, and
//! its spawn position is derived from that index, so concurrent joins
//! never collide on position.

use vstd::prelude::*;
use vstd::bytes::{spec_u64_from_le_bytes, spec_u64_to_le_bytes, u64_from_le_bytes, u64_to_le_bytes};
use vstd::slice::{slice_subrange, slice_to_vec};
use crate::codec::{spec_zeros, Vec3Bits};
use crate::float_bits::{f32_bits_of_uint, spec_f32_bits};

verus! {

/// Size of the user-data blob the secure channel attaches to a
/// connection; must match the transport's `NETCODE_USER_DATA_BYTES`.
pub const NETCODE_USER_DATA_BYTES: usize = 256;

/// Server-side state for one connected client.
pub struct Player {
    pub location: Vec3Bits,
    pub direction: Vec3Bits,
    pub name: Vec<u8>,
    /// Spawn slot; used to derive the spawn position.
    pub num: u8,
}

/// Mathematical view of a player record.
pub struct PlayerView {
    pub location: Vec3Bits,
    pub direction: Vec3Bits,
    pub name: Seq<u8>,
    pub num: u8,
}

impl View for Player {
    type V = PlayerView;

    open spec fn view(&self) -> PlayerView {
        PlayerView {
            location: self.location,
            direction: self.direction,
            name: self.name@,
            num: self.num,
        }
    }
}

/// The registry: client id to player record, in insertion order,
/// with ids unique.
pub struct Registry {
    entries: Vec<(u64, Player)>,
}

impl View for Registry {
    type V = Seq<(u64, PlayerView)>;

    closed spec fn view(&self) -> Seq<(u64, PlayerView)> {
        Seq::new(self.entries@.len(), |i: int| (self.entries@[i].0, self.entries@[i].1@))
    }
}

impl Registry {
    /// Well-formed: no client id occurs twice.
    pub open spec fn wf(&self) -> bool {
        forall|i: int, j: int| 0 <= i < j < self@.len() ==> self@[i].0 != self@[j].0
    }

    /// Some record carries this client id.
    pub open spec fn spec_contains(&self, client_id: u64) -> bool {
        exists|i: int| 0 <= i < self@.len() && self@[i].0 == client_id
    }

    /// The record under this client id (meaningful when present and
    /// the registry is well-formed).
    pub open spec fn spec_get(&self, client_id: u64) -> PlayerView {
        self@[choose|i: int| 0 <= i < self@.len() && self@[i].0 == client_id].1
    }

    /// An empty registry.
    pub fn new() -> (r: Registry)
        ensures
            r@.len() == 0,
            r.wf(),
    {
        Registry { entries: Vec::new() }
    }

    /// How many players are tracked.
    pub fn len(&self) -> (r: usize)
        ensures
            r == self@.len(),
    {
        self.entries.len()
    }

    /// Index of the record with this id, if any.
    fn find_index(&self, client_id: u64) -> (r: Option<usize>)
        ensures
            match r {
                Some(i) => i < self@.len() && self@[i as int].0 == client_id,
                None => !self.spec_contains(client_id),
            },
    {
        let mut i: usize = 0;
        while i < self.entries.len()
            invariant
                i <= self@.len(),
                self@.len() == self.entries@.len(),
                forall|j: int| 0 <= j < i ==> self@[j].0 != client_id,
            decreases self.entries@.len() - i,
        {
            if self.entries[i].0 == client_id {
                return Some(i);
            }
            i = i + 1;
        }
        None
    }

    /// Whether a record with this id exists.
    pub fn contains(&self, client_id: u64) -> (r: bool)
        ensures
            r == self.spec_contains(client_id),
    {
        match self.find_index(client_id) {
            Some(_) => true,
            None => false,
        }
    }

    /// Borrow the record with this id.
    pub fn get(&self, client_id: u64) -> (r: Option<&Player>)
        requires
            self.wf(),
        ensures
            match r {
                Some(p) => self.spec_contains(client_id) && p@ == self.spec_get(client_id),
                None => !self.spec_contains(client_id),
            },
    {
        match self.find_index(client_id) {
            Some(i) => Some(&self.entries[i].1),
            None => None,
        }
    }

    /// Put a record under this id: replace the record in place when
    /// the id is present, append it otherwise.
    pub fn insert(&mut self, client_id: u64, player: Player)
        requires
            old(self).wf(),
        ensures
            final(self).wf(),
            final(self).spec_contains(client_id),
            old(self).spec_contains(client_id) ==> exists|i: int|
                0 <= i < old(self)@.len() && old(self)@[i].0 == client_id && final(self)@ == old(
                    self,
                )@.update(i, (client_id, player@)),
            !old(self).spec_contains(client_id) ==> final(self)@ == old(self)@.push(
                (client_id, player@),
            ),
    {
        match self.find_index(client_id) {
            Some(i) => {
                let ghost i_int = i as int;
                self.entries.set(i, (client_id, player));
                proof {
                    assert(self@ =~= old(self)@.update(i_int, (client_id, self@[i_int].1)));
                }
            },
            None => {
                self.entries.push((client_id, player));
                proof {
                    assert(self@ =~= old(self)@.push((client_id, self@.last().1)));
                }
            },
        }
    }

    /// Drop the record under this id; a no-op when none exists.
    pub fn remove(&mut self, client_id: u64)
        requires
            old(self).wf(),
        ensures
            final(self).wf(),
            !final(self).spec_contains(client_id),
            old(self).spec_contains(client_id) ==> exists|i: int|
                0 <= i < old(self)@.len() && old(self)@[i].0 == client_id && final(self)@ == old(
                    self,
                )@.remove(i),
            !old(self).spec_contains(client_id) ==> final(self)@ == old(self)@,
    {
        match self.find_index(client_id) {
            Some(i) => {
                let ghost i_int = i as int;
                self.entries.remove(i);
                proof {
                    assert(self@ =~= old(self)@.remove(i_int));
                    assert forall|k: int| 0 <= k < self@.len() implies self@[k].0
                        != client_id by {
                        if k < i_int {
                            assert(self@[k] == old(self)@[k]);
                        } else {
                            assert(self@[k] == old(self)@[k + 1]);
                        }
                    }
                }
            },
            None => {},
        }
    }

    /// Overwrite the location of the record under this id, touching
    /// nothing else; reports whether the record existed.
    pub fn set_location(&mut self, client_id: u64, location: Vec3Bits) -> (found: bool)
        requires
            old(self).wf(),
        ensures
            final(self).wf(),
            found == old(self).spec_contains(client_id),
            found ==> exists|i: int|
                0 <= i < old(self)@.len() && old(self)@[i].0 == client_id && final(self)@ == old(
                    self,
                )@.update(
                    i,
                    (
                        client_id,
                        PlayerView {
                            location: location,
                            direction: old(self)@[i].1.direction,
                            name: old(self)@[i].1.name,
                            num: old(self)@[i].1.num,
                        },
                    ),
                ),
            !found ==> final(self)@ == old(self)@,
    {
        match self.find_index(client_id) {
            Some(i) => {
                let ghost i_int = i as int;
                let mut entry = self.entries.remove(i);
                entry.1.location = location;
                self.entries.insert(i, entry);
                proof {
                    assert(self@ =~= old(self)@.update(i_int, (client_id, self@[i_int].1)));
                }
                true
            },
            None => false,
        }
    }
}

/// The highest spawn slot currently in use; 0 for an empty registry.
pub open spec fn spec_max_num(s: Seq<(u64, PlayerView)>) -> u8
    decreases s.len(),
{
    if s.len() == 0 {
        0u8
    } else {
        let rest = spec_max_num(s.drop_last());
        if s.last().1.num > rest {
            s.last().1.num
        } else {
            rest
        }
    }
}

/// The spawn slot a joining player receives: the high-water mark plus
/// one, saturating at the largest slot.
pub open spec fn spec_next_num(s: Seq<(u64, PlayerView)>) -> u8 {
    if spec_max_num(s) == 255 {
        255u8
    } else {
        (spec_max_num(s) + 1) as u8
    }
}

/// The spawn position of slot `num`: translated along one axis by a
/// fixed step of four units per slot, four units up.
pub open spec fn spec_spawn_location(num: u8) -> Vec3Bits {
    Vec3Bits {
        x_bits: spec_f32_bits(((num as int) * 4) as u32),
        y_bits: spec_f32_bits(4u32),
        z_bits: 0u32,
    }
}

/// The highest spawn slot among the tracked players.
pub fn get_player_num(players: &Registry) -> (r: u8)
    ensures
        r == spec_max_num(players@),
{
    let mut max_num: u8 = 0;
    let mut i: usize = 0;
    proof {
        assert(players@.subrange(0, 0) =~= Seq::<(u64, PlayerView)>::empty());
    }
    while i < players.len()
        invariant
            i <= players@.len(),
            max_num == spec_max_num(players@.subrange(0, i as int)),
        decreases players@.len() - i,
    {
        let num = players.player_num_at(i);
        if num > max_num {
            max_num = num;
        }
        proof {
            assert(players@.subrange(0, (i + 1) as int).drop_last() =~= players@.subrange(
                0,
                i as int,
            ));
        }
        i = i + 1;
    }
    proof {
        assert(players@.subrange(0, players@.len() as int) =~= players@);
    }
    max_num
}

impl Registry {
    /// Spawn slot of the record at this position.
    fn player_num_at(&self, i: usize) -> (r: u8)
        requires
            i < self@.len(),
        ensures
            r == self@[i as int].1.num,
    {
        self.entries[i].1.num
    }

    /// Client id of the record at this position.
    pub fn id_at(&self, i: usize) -> (r: u64)
        requires
            i < self@.len(),
        ensures
            r == self@[i as int].0,
    {
        self.entries[i].0
    }

    /// Borrow the record at this position.
    pub fn player_at(&self, i: usize) -> (r: &Player)
        requires
            i < self@.len(),
        ensures
            r@ == self@[i as int].1,
    {
        &self.entries[i].1
    }

    /// In a well-formed registry, the record found at a position is
    /// the record its id looks up to.
    pub proof fn lemma_get_at(&self, i: int)
        requires
            self.wf(),
            0 <= i < self@.len(),
        ensures
            self.spec_contains(self@[i].0),
            self.spec_get(self@[i].0) == self@[i].1,
    {
        let cid = self@[i].0;
        assert(self.spec_contains(cid));
        let j = choose|j: int| 0 <= j < self@.len() && self@[j].0 == cid;
        assert(j == i);
    }
}

/// Build the record for a joining player: the next free spawn slot
/// and the position derived from it, facing the origin direction.
pub fn initialise_new_player(players: &Registry, name: Vec<u8>) -> (p: Player)
    ensures
        p@.num == spec_next_num(players@),
        p@.location == spec_spawn_location(spec_next_num(players@)),
        p@.direction == (Vec3Bits { x_bits: 0u32, y_bits: 0u32, z_bits: 0u32 }),
        p@.name == name@,
{
    let max_num = get_player_num(players);
    let num: u8 = if max_num == 255 {
        255
    } else {
        max_num + 1
    };
    let x_bits = f32_bits_of_uint((num as u32) * 4);
    let y_bits = f32_bits_of_uint(4);
    Player {
        location: Vec3Bits { x_bits, y_bits, z_bits: 0 },
        direction: Vec3Bits::zero(),
        name,
        num,
    }
}

/// A display name, carried as raw bytes.
pub struct Username(pub Vec<u8>);

/// The user-data blob a name is packed into: eight little-endian
/// length bytes, the name, zero padding to the blob size.
pub open spec fn spec_user_data(name: Seq<u8>) -> Seq<u8> {
    spec_u64_to_le_bytes(name.len() as u64) + name + spec_zeros(
        NETCODE_USER_DATA_BYTES - 8 - name.len(),
    )
}

/// The name read back from a user-data blob: the claimed length,
/// clamped to what the blob can hold, bytes after the length field.
pub open spec fn spec_user_data_name(data: Seq<u8>) -> Seq<u8> {
    let claimed = spec_u64_from_le_bytes(data.subrange(0, 8)) as int;
    let len = if claimed > NETCODE_USER_DATA_BYTES - 8 {
        NETCODE_USER_DATA_BYTES - 8
    } else {
        claimed
    };
    data.subrange(8, 8 + len)
}

impl Username {
    /// Pack this name into the secure channel's user-data blob.
    pub fn to_netcode_user_data(&self) -> (r: Vec<u8>)
        requires
            self.0@.len() <= NETCODE_USER_DATA_BYTES - 8,
        ensures
            r@ == spec_user_data(self.0@),
            r@.len() == NETCODE_USER_DATA_BYTES,
    {
        let mut data = u64_to_le_bytes(self.0.len() as u64);
        let ghost head = data@;
        let mut i: usize = 0;
        while i < self.0.len()
            invariant
                i <= self.0@.len(),
                data@ == head + self.0@.subrange(0, i as int),
            decreases self.0@.len() - i,
        {
            data.push(self.0[i]);
            proof {
                assert(self.0@.subrange(0, (i + 1) as int) =~= self.0@.subrange(0, i as int).push(
                    self.0@[i as int],
                ));
            }
            i = i + 1;
        }
        proof {
            assert(self.0@.subrange(0, self.0@.len() as int) =~= self.0@);
        }
        let ghost body = data@;
        while data.len() < NETCODE_USER_DATA_BYTES
            invariant
                body.len() <= data@.len() <= NETCODE_USER_DATA_BYTES,
                body.len() == 8 + self.0@.len(),
                data@.subrange(0, body.len() as int) == body,
                forall|j: int| body.len() <= j < data@.len() ==> data@[j] == 0u8,
            decreases NETCODE_USER_DATA_BYTES - data@.len(),
        {
            data.push(0u8);
            proof {
                assert(data@.subrange(0, body.len() as int) =~= body);
            }
        }
        proof {
            assert(data@ =~= spec_user_data(self.0@));
        }
        data
    }

    /// Read a name back out of a user-data blob.
    pub fn from_user_data(user_data: &[u8]) -> (r: Username)
        requires
            user_data@.len() == NETCODE_USER_DATA_BYTES,
        ensures
            r.0@ == spec_user_data_name(user_data@),
    {
        let claimed = u64_from_le_bytes(slice_subrange(user_data, 0, 8));
        let len: usize = if claimed > (NETCODE_USER_DATA_BYTES - 8) as u64 {
            NETCODE_USER_DATA_BYTES - 8
        } else {
            claimed as usize
        };
        Username(slice_to_vec(slice_subrange(user_data, 8, 8 + len)))
    }
}

} // verus!
