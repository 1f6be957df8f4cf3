//! Wire-message codec: the fixed-layout binary encoding of the
//! application messages exchanged between client and server.
//!
//! A message is encoded into a fixed 100-byte buffer: a 1-byte tag,
//! then the fixed fields in little-endian order, then (for `Connect`)
//! a 1-byte length-prefixed name. Decoding never fails hard: any
//! unrecognized tag or truncated buffer yields the `Invalid` sentinel,
//! which callers treat as "ignore this datagram".

use vstd::prelude::*;
use vstd::bytes::{
    lemma_auto_spec_u32_to_from_le_bytes, lemma_auto_spec_u64_to_from_le_bytes,
    spec_u32_from_le_bytes, spec_u32_to_le_bytes, spec_u64_from_le_bytes, spec_u64_to_le_bytes,
    u32_from_le_bytes, u32_to_le_bytes, u64_from_le_bytes, u64_to_le_bytes,
};
use vstd::slice::{slice_subrange, slice_to_vec};

verus! {

/// Every encoded message occupies exactly this many bytes.
pub const MESSAGE_BUF_BYTES: usize = 100;

/// Bytes of a `Connect` message before the name: 1 tag + 8 client id
/// + 12 location + 12 direction + 1 name length.
pub const CONNECT_HEADER_BYTES: usize = 34;

/// Longest name that still fits the fixed buffer after the header.
pub const MAX_NAME_BYTES: usize = 66;

/// A three-component vector whose components are IEEE 754
/// single-precision bit patterns. The protocol never interprets the
/// components arithmetically; it only moves the 32-bit patterns
/// between the wire and the simulation, so they are carried as plain
/// `u32` values.
#[derive(Clone, Copy, PartialEq, Eq, Structural, Debug)]
pub struct Vec3Bits {
    pub x_bits: u32,
    pub y_bits: u32,
    pub z_bits: u32,
}

/// The all-zero vector (the bit pattern of 0.0 is 0).
pub open spec fn spec_vec3_zero() -> Vec3Bits {
    Vec3Bits { x_bits: 0u32, y_bits: 0u32, z_bits: 0u32 }
}

impl Vec3Bits {
    /// The all-zero vector (the bit pattern of 0.0 is 0).
    pub fn zero() -> (r: Vec3Bits)
        ensures
            r == spec_vec3_zero(),
    {
        Vec3Bits { x_bits: 0, y_bits: 0, z_bits: 0 }
    }
}

/// A byte-for-byte copy of a buffer.
pub fn copy_bytes(v: &Vec<u8>) -> (r: Vec<u8>)
    ensures
        r@ == v@,
{
    let mut out: Vec<u8> = Vec::new();
    let mut i: usize = 0;
    while i < v.len()
        invariant
            i <= v@.len(),
            out@ == v@.subrange(0, i as int),
        decreases v@.len() - i,
    {
        out.push(v[i]);
        proof {
            assert(v@.subrange(0, (i + 1) as int) =~= v@.subrange(0, i as int).push(v@[i as int]));
        }
        i = i + 1;
    }
    proof {
        assert(v@.subrange(0, v@.len() as int) =~= v@);
    }
    out
}

/// An application message as carried on the wire. The name of a
/// `Connect` is carried as raw bytes; the presentation layer decides
/// how to render them.
pub enum MultiplayerMessage {
    Connect { client_id: u64, location: Vec3Bits, direction: Vec3Bits, name: Vec<u8> },
    Disconnect { client_id: u64 },
    Move { client_id: u64, location: Vec3Bits },
    Invalid,
}

/// The mathematical view of a message: as `MultiplayerMessage`, with
/// the name abstracted to a byte sequence.
pub enum MessageView {
    Connect { client_id: u64, location: Vec3Bits, direction: Vec3Bits, name: Seq<u8> },
    Disconnect { client_id: u64 },
    Move { client_id: u64, location: Vec3Bits },
    Invalid,
}

impl View for MultiplayerMessage {
    type V = MessageView;

    open spec fn view(&self) -> MessageView {
        match self {
            MultiplayerMessage::Connect { client_id, location, direction, name } => {
                MessageView::Connect {
                    client_id: *client_id,
                    location: *location,
                    direction: *direction,
                    name: name@,
                }
            },
            MultiplayerMessage::Disconnect { client_id } => {
                MessageView::Disconnect { client_id: *client_id }
            },
            MultiplayerMessage::Move { client_id, location } => {
                MessageView::Move { client_id: *client_id, location: *location }
            },
            MultiplayerMessage::Invalid => MessageView::Invalid,
        }
    }
}

/// Why a message could not be encoded.
#[derive(Clone, Copy, PartialEq, Eq, Structural, Debug)]
pub enum EncodeError {
    /// `Invalid` is a decode-only sentinel and is never sent.
    NoMessage,
    /// The name of a `Connect` does not fit the fixed buffer.
    NameTooLong,
}

/// The wire tag of each message kind. Tag 0 is never produced by the
/// encoder; it stands for the `Invalid` sentinel.
pub open spec fn spec_tag(m: MessageView) -> u8 {
    match m {
        MessageView::Invalid => 0u8,
        MessageView::Connect { .. } => 1u8,
        MessageView::Disconnect { .. } => 2u8,
        MessageView::Move { .. } => 3u8,
    }
}

/// A message can be encoded unless it is the sentinel or its name
/// overflows the fixed buffer.
pub open spec fn spec_encodable(m: MessageView) -> bool {
    match m {
        MessageView::Connect { name, .. } => name.len() <= MAX_NAME_BYTES,
        MessageView::Disconnect { .. } => true,
        MessageView::Move { .. } => true,
        MessageView::Invalid => false,
    }
}

/// `n` zero bytes of padding.
pub open spec fn spec_zeros(n: int) -> Seq<u8> {
    Seq::new(n as nat, |i: int| 0u8)
}

/// The twelve little-endian bytes of a vector's three components.
pub open spec fn spec_vec3_to_bytes(v: Vec3Bits) -> Seq<u8> {
    spec_u32_to_le_bytes(v.x_bits) + spec_u32_to_le_bytes(v.y_bits) + spec_u32_to_le_bytes(
        v.z_bits,
    )
}

/// A vector read back from twelve little-endian bytes.
pub open spec fn spec_vec3_from_bytes(b: Seq<u8>) -> Vec3Bits
    recommends
        b.len() == 12,
{
    Vec3Bits {
        x_bits: spec_u32_from_le_bytes(b.subrange(0, 4)),
        y_bits: spec_u32_from_le_bytes(b.subrange(4, 8)),
        z_bits: spec_u32_from_le_bytes(b.subrange(8, 12)),
    }
}

/// The exact 100-byte buffer an encodable message is written as.
pub open spec fn spec_encode(m: MessageView) -> Seq<u8>
    recommends
        spec_encodable(m),
{
    match m {
        MessageView::Connect { client_id, location, direction, name } => {
            seq![1u8] + spec_u64_to_le_bytes(client_id) + spec_vec3_to_bytes(location)
                + spec_vec3_to_bytes(direction) + seq![name.len() as u8] + name + spec_zeros(
                MESSAGE_BUF_BYTES - CONNECT_HEADER_BYTES - name.len(),
            )
        },
        MessageView::Disconnect { client_id } => {
            seq![2u8] + spec_u64_to_le_bytes(client_id) + spec_zeros(91)
        },
        MessageView::Move { client_id, location } => {
            seq![3u8] + spec_u64_to_le_bytes(client_id) + spec_vec3_to_bytes(location)
                + spec_zeros(79)
        },
        MessageView::Invalid => Seq::empty(),
    }
}

/// What any byte buffer decodes to. A buffer too short for the fields
/// its tag promises, or with an unknown tag, decodes to `Invalid`.
pub open spec fn spec_decode(buf: Seq<u8>) -> MessageView {
    if buf.len() < 1 {
        MessageView::Invalid
    } else if buf[0] == 1 {
        if buf.len() < CONNECT_HEADER_BYTES {
            MessageView::Invalid
        } else {
            let name_len = buf[33] as int;
            if buf.len() < CONNECT_HEADER_BYTES + name_len {
                MessageView::Invalid
            } else {
                MessageView::Connect {
                    client_id: spec_u64_from_le_bytes(buf.subrange(1, 9)),
                    location: spec_vec3_from_bytes(buf.subrange(9, 21)),
                    direction: spec_vec3_from_bytes(buf.subrange(21, 33)),
                    name: buf.subrange(34, 34 + name_len),
                }
            }
        }
    } else if buf[0] == 2 {
        if buf.len() < 9 {
            MessageView::Invalid
        } else {
            MessageView::Disconnect { client_id: spec_u64_from_le_bytes(buf.subrange(1, 9)) }
        }
    } else if buf[0] == 3 {
        if buf.len() < 21 {
            MessageView::Invalid
        } else {
            MessageView::Move {
                client_id: spec_u64_from_le_bytes(buf.subrange(1, 9)),
                location: spec_vec3_from_bytes(buf.subrange(9, 21)),
            }
        }
    } else {
        MessageView::Invalid
    }
}

impl MultiplayerMessage {
    /// The wire tag of this message.
    pub fn get_id(&self) -> (r: u8)
        ensures
            r == spec_tag(self@),
    {
        match self {
            MultiplayerMessage::Invalid => 0,
            MultiplayerMessage::Connect { .. } => 1,
            MultiplayerMessage::Disconnect { .. } => 2,
            MultiplayerMessage::Move { .. } => 3,
        }
    }

    /// Encode this message into its fixed 100-byte buffer.
    ///
    /// Encoding fails exactly on the inputs the protocol rejects: the
    /// `Invalid` sentinel (which is never an intentional send) and a
    /// `Connect` whose name does not fit the buffer. An oversized name
    /// is rejected outright, never truncated.
    pub fn get_buf(&self) -> (r: Result<Vec<u8>, EncodeError>)
        ensures
            r is Ok <==> spec_encodable(self@),
            r matches Ok(buf) ==> buf@ == spec_encode(self@) && buf@.len() == MESSAGE_BUF_BYTES,
            r matches Err(e) ==> match self@ {
                MessageView::Invalid => e == EncodeError::NoMessage,
                MessageView::Connect { name, .. } => name.len() > MAX_NAME_BYTES && e
                    == EncodeError::NameTooLong,
                _ => false,
            },
    {
        match self {
            MultiplayerMessage::Connect { client_id, location, direction, name } => {
                if name.len() > MAX_NAME_BYTES {
                    return Err(EncodeError::NameTooLong);
                }
                let mut buf: Vec<u8> = Vec::new();
                buf.push(1u8);
                let mut id_bytes = u64_to_le_bytes(*client_id);
                buf.append(&mut id_bytes);
                push_vec3(&mut buf, location);
                push_vec3(&mut buf, direction);
                buf.push(name.len() as u8);
                let ghost head = buf@;
                let mut i: usize = 0;
                while i < name.len()
                    invariant
                        i <= name@.len(),
                        buf@ == head + name@.subrange(0, i as int),
                    decreases name@.len() - i,
                {
                    buf.push(name[i]);
                    proof {
                        assert(name@.subrange(0, (i + 1) as int) =~= name@.subrange(
                            0,
                            i as int,
                        ).push(name@[i as int]));
                    }
                    i = i + 1;
                }
                proof {
                    assert(name@.subrange(0, name@.len() as int) =~= name@);
                }
                pad_zeros(&mut buf);
                proof {
                    lemma_auto_spec_u64_to_from_le_bytes();
                    lemma_auto_spec_u32_to_from_le_bytes();
                    assert(buf@ =~= spec_encode(self@));
                }
                Ok(buf)
            },
            MultiplayerMessage::Disconnect { client_id } => {
                let mut buf: Vec<u8> = Vec::new();
                buf.push(2u8);
                let mut id_bytes = u64_to_le_bytes(*client_id);
                buf.append(&mut id_bytes);
                pad_zeros(&mut buf);
                proof {
                    lemma_auto_spec_u64_to_from_le_bytes();
                    lemma_auto_spec_u32_to_from_le_bytes();
                    assert(buf@ =~= spec_encode(self@));
                }
                Ok(buf)
            },
            MultiplayerMessage::Move { client_id, location } => {
                let mut buf: Vec<u8> = Vec::new();
                buf.push(3u8);
                let mut id_bytes = u64_to_le_bytes(*client_id);
                buf.append(&mut id_bytes);
                push_vec3(&mut buf, location);
                pad_zeros(&mut buf);
                proof {
                    lemma_auto_spec_u64_to_from_le_bytes();
                    lemma_auto_spec_u32_to_from_le_bytes();
                    assert(buf@ =~= spec_encode(self@));
                }
                Ok(buf)
            },
            MultiplayerMessage::Invalid => Err(EncodeError::NoMessage),
        }
    }

    /// Decode a received buffer. Never fails: malformed input yields
    /// the `Invalid` sentinel, which the caller drops.
    pub fn get(buf: &[u8]) -> (r: MultiplayerMessage)
        ensures
            r@ == spec_decode(buf@),
    {
        if buf.len() < 1 {
            return MultiplayerMessage::Invalid;
        }
        let tag = buf[0];
        if tag == 1 {
            if buf.len() < CONNECT_HEADER_BYTES {
                return MultiplayerMessage::Invalid;
            }
            let client_id = u64_from_le_bytes(slice_subrange(buf, 1, 9));
            let location = vec3_from_slice(slice_subrange(buf, 9, 21));
            let direction = vec3_from_slice(slice_subrange(buf, 21, 33));
            let name_len = buf[33] as usize;
            if buf.len() - CONNECT_HEADER_BYTES < name_len {
                return MultiplayerMessage::Invalid;
            }
            let name = slice_to_vec(slice_subrange(buf, 34, 34 + name_len));
            MultiplayerMessage::Connect { client_id, location, direction, name }
        } else if tag == 2 {
            if buf.len() < 9 {
                return MultiplayerMessage::Invalid;
            }
            let client_id = u64_from_le_bytes(slice_subrange(buf, 1, 9));
            MultiplayerMessage::Disconnect { client_id }
        } else if tag == 3 {
            if buf.len() < 21 {
                return MultiplayerMessage::Invalid;
            }
            let client_id = u64_from_le_bytes(slice_subrange(buf, 1, 9));
            let location = vec3_from_slice(slice_subrange(buf, 9, 21));
            MultiplayerMessage::Move { client_id, location }
        } else {
            MultiplayerMessage::Invalid
        }
    }
}

/// Append the twelve little-endian bytes of a vector.
fn push_vec3(buf: &mut Vec<u8>, v: &Vec3Bits)
    ensures
        final(buf)@ == old(buf)@ + spec_vec3_to_bytes(*v),
        final(buf)@.len() == old(buf)@.len() + 12,
{
    proof {
        lemma_auto_spec_u32_to_from_le_bytes();
    }
    let mut xb = u32_to_le_bytes(v.x_bits);
    buf.append(&mut xb);
    let mut yb = u32_to_le_bytes(v.y_bits);
    buf.append(&mut yb);
    let mut zb = u32_to_le_bytes(v.z_bits);
    buf.append(&mut zb);
    proof {
        assert(buf@ =~= old(buf)@ + spec_vec3_to_bytes(*v));
    }
}

/// Pad a buffer with zero bytes up to the fixed message size.
fn pad_zeros(buf: &mut Vec<u8>)
    requires
        old(buf)@.len() <= MESSAGE_BUF_BYTES,
    ensures
        final(buf)@ == old(buf)@ + spec_zeros(MESSAGE_BUF_BYTES - old(buf)@.len()),
{
    proof {
        assert(buf@.subrange(0, old(buf)@.len() as int) =~= old(buf)@);
    }
    while buf.len() < MESSAGE_BUF_BYTES
        invariant
            old(buf)@.len() <= buf@.len() <= MESSAGE_BUF_BYTES,
            buf@.subrange(0, old(buf)@.len() as int) == old(buf)@,
            forall|j: int| old(buf)@.len() <= j < buf@.len() ==> buf@[j] == 0u8,
        decreases MESSAGE_BUF_BYTES - buf@.len(),
    {
        buf.push(0u8);
        proof {
            assert(buf@.subrange(0, old(buf)@.len() as int) =~= old(buf)@);
        }
    }
    proof {
        assert(buf@ =~= old(buf)@ + spec_zeros(MESSAGE_BUF_BYTES - old(buf)@.len()));
    }
}

/// Read a vector back from a twelve-byte slice.
fn vec3_from_slice(b: &[u8]) -> (r: Vec3Bits)
    requires
        b@.len() == 12,
    ensures
        r == spec_vec3_from_bytes(b@),
{
    let x_bits = u32_from_le_bytes(slice_subrange(b, 0, 4));
    let y_bits = u32_from_le_bytes(slice_subrange(b, 4, 8));
    let z_bits = u32_from_le_bytes(slice_subrange(b, 8, 12));
    Vec3Bits { x_bits, y_bits, z_bits }
}

/// Round trip: decoding an encoded message gives the message back,
/// for every message the encoder accepts — any tag, any 64-bit client
/// id, any component bit patterns, any name that fits the buffer.
pub proof fn lemma_round_trip(m: MessageView)
    requires
        spec_encodable(m),
    ensures
        spec_decode(spec_encode(m)) == m,
{
    lemma_auto_spec_u64_to_from_le_bytes();
    lemma_auto_spec_u32_to_from_le_bytes();
    let e = spec_encode(m);
    match m {
        MessageView::Connect { client_id, location, direction, name } => {
            assert(e.len() == MESSAGE_BUF_BYTES);
            assert(e[0] == 1u8);
            assert(e[33] == name.len() as u8);
            assert(e.subrange(1, 9) =~= spec_u64_to_le_bytes(client_id));
            lemma_vec3_bytes_subrange(e, 9, location);
            lemma_vec3_bytes_subrange(e, 21, direction);
            assert(e.subrange(34, 34 + name.len() as int) =~= name);
        },
        MessageView::Disconnect { client_id } => {
            assert(e[0] == 2u8);
            assert(e.subrange(1, 9) =~= spec_u64_to_le_bytes(client_id));
        },
        MessageView::Move { client_id, location } => {
            assert(e[0] == 3u8);
            assert(e.subrange(1, 9) =~= spec_u64_to_le_bytes(client_id));
            lemma_vec3_bytes_subrange(e, 9, location);
        },
        MessageView::Invalid => {
        },
    }
}

/// If twelve consecutive bytes of a buffer are the encoding of `v`,
/// they decode back to `v`.
proof fn lemma_vec3_bytes_subrange(e: Seq<u8>, at: int, v: Vec3Bits)
    requires
        0 <= at,
        at + 12 <= e.len(),
        e.subrange(at, at + 12) =~= spec_vec3_to_bytes(v),
    ensures
        spec_vec3_from_bytes(e.subrange(at, at + 12)) == v,
{
    lemma_auto_spec_u32_to_from_le_bytes();
    let b = e.subrange(at, at + 12);
    assert(b.subrange(0, 4) =~= spec_u32_to_le_bytes(v.x_bits));
    assert(b.subrange(4, 8) =~= spec_u32_to_le_bytes(v.y_bits));
    assert(b.subrange(8, 12) =~= spec_u32_to_le_bytes(v.z_bits));
}

/// Boundary: a name of exactly the longest encodable length still
/// round-trips untruncated, and any longer name is rejected by the
/// encoder — never silently cut down.
pub proof fn lemma_name_boundary(
    client_id: u64,
    location: Vec3Bits,
    direction: Vec3Bits,
    name: Seq<u8>,
)
    ensures
        name.len() == MAX_NAME_BYTES ==> spec_decode(
            spec_encode((MessageView::Connect { client_id, location, direction, name })),
        ) == (MessageView::Connect { client_id, location, direction, name }),
        name.len() > MAX_NAME_BYTES ==> !spec_encodable(
            (MessageView::Connect { client_id, location, direction, name }),
        ),
{
    if name.len() == MAX_NAME_BYTES {
        lemma_round_trip(MessageView::Connect { client_id, location, direction, name });
    }
}

/// Tag robustness: an empty buffer, a buffer whose first byte is not
/// a known tag, or a buffer too short for the fields its tag promises
/// always decodes to the `Invalid` sentinel — never to a hard failure.
pub proof fn lemma_decode_robust(buf: Seq<u8>)
    ensures
        buf.len() == 0 ==> spec_decode(buf) is Invalid,
        buf.len() > 0 && buf[0] != 1 && buf[0] != 2 && buf[0] != 3 ==> spec_decode(buf) is Invalid,
        buf.len() > 0 && buf[0] == 1 && buf.len() < CONNECT_HEADER_BYTES ==> spec_decode(
            buf,
        ) is Invalid,
        buf.len() >= CONNECT_HEADER_BYTES && buf[0] == 1 && buf.len() < CONNECT_HEADER_BYTES + (
        buf[33] as int) ==> spec_decode(buf) is Invalid,
        buf.len() > 0 && buf[0] == 2 && buf.len() < 9 ==> spec_decode(buf) is Invalid,
        buf.len() > 0 && buf[0] == 3 && buf.len() < 21 ==> spec_decode(buf) is Invalid,
{
}

} // verus!
