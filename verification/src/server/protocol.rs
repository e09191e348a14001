use vstd::prelude::*;

verus! {

/// What the server tells the user interface.
#[derive(Debug, Clone)]
pub enum ServerMessage {
    ClientConnected(u32),
    ClientDisconnected(u32),
    UpdateReceived { client_id: u32, change_number: u64, updates: Vec<(u8, u8)> },
}

/// A message a client sends. Every message starts with a 6-byte header: 1 byte type,
/// 4 bytes client ID (big-endian), 1 byte payload length.
#[derive(Debug, Clone)]
pub enum ClientMessage {
    /// Type 0: a 4-byte assigned ID.
    Assign { client_id: u32, assigned_id: u32 },
    /// Type 1: an 8-byte change number the client has seen.
    Check { client_id: u32, change_number: u64 },
    /// Type 2: an 8-byte change number, then (offset, value) pairs.
    Update { client_id: u32, change_number: u64, updates: Vec<(u8, u8)> },
}

/// The meaning of a client message, with its updates as a sequence.
pub enum WireMessage {
    Assign { client_id: u32, assigned_id: u32 },
    Check { client_id: u32, change_number: u64 },
    Update { client_id: u32, change_number: u64, updates: Seq<(u8, u8)> },
}

impl View for ClientMessage {
    type V = WireMessage;

    open spec fn view(&self) -> WireMessage {
        match self {
            ClientMessage::Assign { client_id, assigned_id } => WireMessage::Assign {
                client_id: *client_id,
                assigned_id: *assigned_id,
            },
            ClientMessage::Check { client_id, change_number } => WireMessage::Check {
                client_id: *client_id,
                change_number: *change_number,
            },
            ClientMessage::Update { client_id, change_number, updates } => WireMessage::Update {
                client_id: *client_id,
                change_number: *change_number,
                updates: updates@,
            },
        }
    }
}

/// Big-endian bytes of a 32-bit number.
pub open spec fn be32(x: u32) -> Seq<u8> {
    seq![(x >> 24u32) as u8, (x >> 16u32) as u8, (x >> 8u32) as u8, x as u8]
}

/// Big-endian bytes of a 64-bit number.
pub open spec fn be64(x: u64) -> Seq<u8> {
    seq![
        (x >> 56u64) as u8,
        (x >> 48u64) as u8,
        (x >> 40u64) as u8,
        (x >> 32u64) as u8,
        (x >> 24u64) as u8,
        (x >> 16u64) as u8,
        (x >> 8u64) as u8,
        x as u8,
    ]
}

/// The 32-bit number whose big-endian bytes are `b[at..at + 4]`.
pub open spec fn u32_at(b: Seq<u8>, at: int) -> u32 {
    ((b[at] as u32) << 24u32) | ((b[at + 1] as u32) << 16u32) | ((b[at + 2] as u32) << 8u32) | (b[at + 3] as u32)
}

/// The 64-bit number whose big-endian bytes are `b[at..at + 8]`.
pub open spec fn u64_at(b: Seq<u8>, at: int) -> u64 {
    ((b[at] as u64) << 56u64) | ((b[at + 1] as u64) << 48u64) | ((b[at + 2] as u64) << 40u64) | ((b[at + 3] as u64)
        << 32u64) | ((b[at + 4] as u64) << 24u64) | ((b[at + 5] as u64) << 16u64) | ((b[at + 6] as u64) << 8u64) | (b[at
        + 7] as u64)
}

/// The bytes of (offset, value) pairs, in order.
pub open spec fn pair_bytes(u: Seq<(u8, u8)>) -> Seq<u8>
    decreases u.len(),
{
    if u.len() == 0 {
        seq![]
    } else {
        pair_bytes(u.drop_last()) + seq![u.last().0, u.last().1]
    }
}

/// An Assign message from the server (ID 0), carrying the assigned ID.
pub open spec fn assign_bytes(assigned_id: u32) -> Seq<u8> {
    seq![0x00u8] + be32(0) + seq![4u8] + be32(assigned_id) 
}

/// An Update message: type 2, the sender, the payload length (8 + 2 per pair, kept to its
/// low byte), the change number, then the pairs.
pub open spec fn update_bytes(sender_id: u32, change_number: u64, updates: Seq<(u8, u8)>) -> Seq<u8> {
    seq![0x02u8] + be32(sender_id) + seq![((8 + 2 * updates.len()) % 256) as u8] + be64(change_number) + pair_bytes(updates)
}

/// The (offset, value) pairs of an Update payload of `len` bytes: bytes 8 and on, two by
/// two; an odd last byte is ignored.
pub open spec fn payload_pairs(payload: Seq<u8>, len: int) -> Seq<(u8, u8)> {
    Seq::new(((len - 8) / 2) as nat, |k: int| (payload[8 + 2 * k], payload[9 + 2 * k]))
}

/// The client message that a header and its payload encode: None for an unknown type
/// or a payload too short for its type.
pub open spec fn decode_spec(header: Seq<u8>, payload: Seq<u8>) -> Option<WireMessage> {
    let client_id = u32_at(header, 1);
    let len = header[5] as int;
    if header[0] == 0 {
        if len >= 4 {
            Some(WireMessage::Assign { client_id, assigned_id: u32_at(payload, 0) })
        } else {
            None
        }
    } else if header[0] == 1 {
        if len >= 8 {
            Some(WireMessage::Check { client_id, change_number: u64_at(payload, 0) })
        } else {
            None
        }
    } else if header[0] == 2 {
        if len >= 8 {
            Some(
                WireMessage::Update {
                    client_id,
                    change_number: u64_at(payload, 0),
                    updates: payload_pairs(payload, len),
                },
            )
        } else {
            None
        }
    } else {
        None
    }
}

fn push_be32(msg: &mut Vec<u8>, x: u32)
    ensures
        final(msg)@ == old(msg)@ + be32(x),
{
    msg.push((x >> 24) as u8);
    msg.push((x >> 16) as u8);
    msg.push((x >> 8) as u8);
    msg.push(x as u8);
    assert(msg@ =~= old(msg)@ + be32(x));
}

fn push_be64(msg: &mut Vec<u8>, x: u64)
    ensures
        final(msg)@ == old(msg)@ + be64(x),
{
    msg.push((x >> 56) as u8);
    msg.push((x >> 48) as u8);
    msg.push((x >> 40) as u8);
    msg.push((x >> 32) as u8);
    msg.push((x >> 24) as u8);
    msg.push((x >> 16) as u8);
    msg.push((x >> 8) as u8);
    msg.push(x as u8);
    assert(msg@ =~= old(msg)@ + be64(x));
}

/// Encode the Assign message that tells a client its ID.
pub fn encode_assign(assigned_id: u32) -> (msg: Vec<u8>)
    ensures
        msg@ == assign_bytes(assigned_id),
{
    let mut msg: Vec<u8> = Vec::new();
    msg.push(0x00);  // Message type
    push_be32(&mut msg, 0);  // Server ID is 0
    msg.push(4);  // Length
    push_be32(&mut msg, assigned_id);
    assert(msg@ =~= assign_bytes(assigned_id));
    msg
}

/// Encode an Update message carrying (offset, value) pairs.
pub fn encode_update(sender_id: u32, change_number: u64, updates: &[(u8, u8)]) -> (msg: Vec<u8>)
    requires
        8 + 2 * updates@.len() <= usize::MAX,
    ensures
        msg@ == update_bytes(sender_id, change_number, updates@),
{
    let mut msg: Vec<u8> = Vec::new();
    msg.push(0x02);  // Message type
    push_be32(&mut msg, sender_id);
    let length = 8 + updates.len() * 2;
    msg.push((length % 256) as u8);  // Length
    push_be64(&mut msg, change_number);
    let ghost head = msg@;
    let mut i: usize = 0;
    while i < updates.len()
        invariant
            i <= updates@.len(),
            msg@ == head + pair_bytes(updates@.take(i as int)),
        decreases updates@.len() - i,
    {
        let (offset, val) = updates[i];
        msg.push(offset);
        msg.push(val);
        assert(updates@.take(i + 1).drop_last() =~= updates@.take(i as int));
        assert(msg@ =~= head + pair_bytes(updates@.take(i + 1)));
        i = i + 1;
    }
    assert(updates@.take(updates@.len() as int) =~= updates@);
    assert(msg@ =~= update_bytes(sender_id, change_number, updates@));
    msg
}

fn read_u32(b: &[u8], at: usize) -> (x: u32)
    requires
        at + 4 <= b@.len(),
    ensures
        x == u32_at(b@, at as int),
{
    ((b[at] as u32) << 24) | ((b[at + 1] as u32) << 16) | ((b[at + 2] as u32) << 8) | (b[at + 3] as u32)
}

fn read_u64(b: &[u8], at: usize) -> (x: u64)
    requires
        at + 8 <= b@.len(),
    ensures
        x == u64_at(b@, at as int),
{
    ((b[at] as u64) << 56) | ((b[at + 1] as u64) << 48) | ((b[at + 2] as u64) << 40) | ((b[at + 3] as u64) << 32)
        | ((b[at + 4] as u64) << 24) | ((b[at + 5] as u64) << 16) | ((b[at + 6] as u64) << 8) | (b[at + 7] as u64)
}

/// Decode a client message from its 6-byte header and the payload of the length the header
/// gives. An unknown type, or a payload too short for its type, gives None.
pub fn decode_message(header: &[u8], payload: &[u8]) -> (msg: Option<ClientMessage>)
    requires
        header@.len() == 6,
        payload@.len() == header@[5],
    ensures
        match msg {
            Some(m) => decode_spec(header@, payload@) == Some(m@),
            None => decode_spec(header@, payload@) is None,
        },
{
    let msg_type = header[0];
    let client_id = read_u32(header, 1);
    let length = header[5] as usize;
    if msg_type == 0x00 {
        if length >= 4 {
            let assigned_id = read_u32(payload, 0);
            Some(ClientMessage::Assign { client_id, assigned_id })
        } else {
            None
        }
    } else if msg_type == 0x01 {
        if length >= 8 {
            let change_number = read_u64(payload, 0);
            Some(ClientMessage::Check { client_id, change_number })
        } else {
            None
        }
    } else if msg_type == 0x02 {
        if length >= 8 {
            let change_number = read_u64(payload, 0);
            let mut updates: Vec<(u8, u8)> = Vec::new();
            let mut i: usize = 8;
            while i + 1 < length
                invariant
                    8 <= i <= length,
                    length == payload@.len(),
                    (i - 8) % 2 == 0,
                    updates@ =~= payload_pairs(payload@, i as int),
                decreases length - i,
            {
                updates.push((payload[i], payload[i + 1]));
                i += 2;
            }
            assert((i - 8) / 2 == (length - 8) / 2);
            assert(updates@ =~= payload_pairs(payload@, length as int));
            Some(ClientMessage::Update { client_id, change_number, updates })
        } else {
            None
        }
    } else {
        None
    }
}

/// Decoding an Update message gives back its sender, change number and pairs, whenever
/// its payload length fits the length byte.
pub proof fn lemma_update_roundtrip(sender_id: u32, change_number: u64, updates: Seq<(u8, u8)>)
    requires
        8 + 2 * updates.len() <= 255,
    ensures
        decode_spec(
            update_bytes(sender_id, change_number, updates).take(6),
            update_bytes(sender_id, change_number, updates).skip(6),
        ) == Some(WireMessage::Update { client_id: sender_id, change_number, updates }),
{
    let b = update_bytes(sender_id, change_number, updates);
    let h = b.take(6);
    let p = b.skip(6);
    lemma_pair_bytes_len(updates);
    assert(h[5] as int == 8 + 2 * updates.len());
    lemma_be32_roundtrip(sender_id);
    lemma_be64_roundtrip(change_number);
    assert(h.subrange(1, 5) =~= be32(sender_id));
    assert(u32_at(h, 1) == u32_at(be32(sender_id), 0));
    assert(p.take(8) =~= be64(change_number));
    assert(u64_at(p, 0) == u64_at(be64(change_number), 0));
    assert forall|k: int| 0 <= k < updates.len() implies (p[8 + 2 * k], p[9 + 2 * k]) == updates[k] by {
        lemma_pair_bytes_at(updates, k);
        assert(p.skip(8) =~= pair_bytes(updates));
    }
    assert(payload_pairs(p, h[5] as int) =~= updates);
}

/// Decoding an Assign message gives back the assigned ID, from the server (ID 0).
pub proof fn lemma_assign_roundtrip(assigned_id: u32)
    ensures
        decode_spec(assign_bytes(assigned_id).take(6), assign_bytes(assigned_id).skip(6)) == Some(
            WireMessage::Assign { client_id: 0, assigned_id },
        ),
{
    let b = assign_bytes(assigned_id);
    lemma_be32_roundtrip(0);
    lemma_be32_roundtrip(assigned_id);
    assert(b.take(6).subrange(1, 5) =~= be32(0));
    assert(u32_at(b.take(6), 1) == u32_at(be32(0), 0));
    assert(b.skip(6) =~= be32(assigned_id));
}

proof fn lemma_be32_roundtrip(x: u32)
    ensures
        u32_at(be32(x), 0) == x,
{
    let b = be32(x);
    assert(((((x >> 24u32) as u8) as u32) << 24u32) | ((((x >> 16u32) as u8) as u32) << 16u32) | ((((x
        >> 8u32) as u8) as u32) << 8u32) | ((x as u8) as u32) == x) by (bit_vector);
}

proof fn lemma_be64_roundtrip(x: u64)
    ensures
        u64_at(be64(x), 0) == x,
{
    assert(((((x >> 56u64) as u8) as u64) << 56u64) | ((((x >> 48u64) as u8) as u64) << 48u64) | ((((x
        >> 40u64) as u8) as u64) << 40u64) | ((((x >> 32u64) as u8) as u64) << 32u64) | ((((x >> 24u64) as u8)
        as u64) << 24u64) | ((((x >> 16u64) as u8) as u64) << 16u64) | ((((x >> 8u64) as u8) as u64) << 8u64) | ((x
        as u8) as u64) == x) by (bit_vector);
}

proof fn lemma_pair_bytes_len(u: Seq<(u8, u8)>)
    ensures
        pair_bytes(u).len() == 2 * u.len(),
    decreases u.len(),
{
    if u.len() > 0 {
        lemma_pair_bytes_len(u.drop_last());
    }
}

proof fn lemma_pair_bytes_at(u: Seq<(u8, u8)>, k: int)
    requires
        0 <= k < u.len(),
    ensures
        pair_bytes(u)[2 * k] == u[k].0,
        pair_bytes(u)[2 * k + 1] == u[k].1,
    decreases u.len(),
{
    lemma_pair_bytes_len(u.drop_last());
    if k < u.len() - 1 {
        lemma_pair_bytes_at(u.drop_last(), k);
    }
}

} // verus!
