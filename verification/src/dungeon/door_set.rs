use vstd::prelude::*;
use crate::dungeon::door_kind::{DoorKind, door_kind_of_bits, door_kind_code, lemma_door_kind_roundtrip};

verus! {

/// Door set: one per room, covering all four walls.
#[derive(Debug, Clone, Copy, PartialEq, Eq)]
pub struct DoorSet {
    pub north: DoorKind,
    pub south: DoorKind,
    pub east: DoorKind,
    pub west: DoorKind,
}

/// The doors that AttrsA (bits 7-5 north, bits 4-2 south) and AttrsB
/// (bits 7-5 west, bits 4-2 east) describe.
pub open spec fn doors_of_attrs(attrs_a: u8, attrs_b: u8) -> DoorSet {
    DoorSet {
        north: door_kind_of_bits(attrs_a >> 5u8),
        south: door_kind_of_bits((attrs_a >> 2u8) & 0x07u8),
        west: door_kind_of_bits(attrs_b >> 5u8),
        east: door_kind_of_bits((attrs_b >> 2u8) & 0x07u8),
    }
}

/// AttrsA with its door bits replaced by the north and south door codes; bits 1-0 kept.
pub open spec fn encode_attrs_a(doors: DoorSet, attrs_a: u8) -> u8 {
    (attrs_a & 0x03u8) | (((door_kind_code(doors.north) << 5u8) | (door_kind_code(doors.south) << 2u8)) as u8)
}

/// AttrsB with its door bits replaced by the west and east door codes; bits 1-0 kept.
pub open spec fn encode_attrs_b(doors: DoorSet, attrs_b: u8) -> u8 {
    (attrs_b & 0x03u8) | (((door_kind_code(doors.west) << 5u8) | (door_kind_code(doors.east) << 2u8)) as u8)
}

/// A door worth noting: neither open nor a wall.
pub open spec fn is_notable_door(kind: DoorKind) -> bool {
    !(kind == DoorKind::Open || kind == DoorKind::Wall)
}

fn notable(kind: DoorKind) -> (b: bool)
    ensures
        b == is_notable_door(kind),
{
    match kind {
        DoorKind::Open | DoorKind::Wall => false,
        _ => true,
    }
}

impl DoorSet {
    /// A room with every wall open.
    pub fn all_open() -> (doors: Self)
        ensures
            doors == (DoorSet {
                north: DoorKind::Open,
                south: DoorKind::Open,
                east: DoorKind::Open,
                west: DoorKind::Open,
            }),
    {
        DoorSet { north: DoorKind::Open, south: DoorKind::Open, east: DoorKind::Open, west: DoorKind::Open }
    }

    /// Decode from AttrsA (S/N) and AttrsB (E/W) raw bytes.
    ///
    /// AttrsA layout: bits 7-5 = North door (3-bit), bits 4-2 = South door.
    /// AttrsB layout: bits 7-5 = West door, bits 4-2 = East door (3-bit each).
    pub fn from_attrs(attrs_a: u8, attrs_b: u8) -> (doors: Self)
        ensures
            doors == doors_of_attrs(attrs_a, attrs_b),
    {
        DoorSet {
            north: DoorKind::from_bits(attrs_a >> 5),
            south: DoorKind::from_bits((attrs_a >> 2) & 0x07),
            west: DoorKind::from_bits(attrs_b >> 5),
            east: DoorKind::from_bits((attrs_b >> 2) & 0x07),
        }
    }

    /// Pack these doors back into the two attribute bytes, keeping their bits 1-0.
    pub fn encode_into(&self, attrs_a: &mut u8, attrs_b: &mut u8)
        ensures
            *final(attrs_a) == encode_attrs_a(*self, *old(attrs_a)),
            *final(attrs_b) == encode_attrs_b(*self, *old(attrs_b)),
    {
        // Clear old door bits, keeping bits 1-0.
        *attrs_a &= 0x03;
        *attrs_b &= 0x03;
        let n = self.north.to_bits();
        let s = self.south.to_bits();
        let w = self.west.to_bits();
        let e = self.east.to_bits();
        assert(n << 5u8 <= 0xE0 && s << 2u8 <= 0x1C && w << 5u8 <= 0xE0 && e << 2u8 <= 0x1C) by (bit_vector)
            requires n < 8, s < 8, w < 8, e < 8;
        // Apply new door bits.
        *attrs_a |= (n << 5) | (s << 2);
        *attrs_b |= (w << 5) | (e << 2);
    }

    /// True if any door is notable (not Open or Wall).
    pub fn has_notable(&self) -> (b: bool)
        ensures
            b == (is_notable_door(self.north) || is_notable_door(self.south) || is_notable_door(self.east)
                || is_notable_door(self.west)),
    {
        notable(self.north) || notable(self.south) || notable(self.east) || notable(self.west)
    }
}

/// Packing a door set into attribute bytes and decoding them gives the same doors back,
/// whatever the bytes held before.
pub proof fn lemma_encode_decode_doors(doors: DoorSet, attrs_a: u8, attrs_b: u8)
    ensures
        doors_of_attrs(encode_attrs_a(doors, attrs_a), encode_attrs_b(doors, attrs_b)) == doors,
{
    let n = door_kind_code(doors.north);
    let s = door_kind_code(doors.south);
    let w = door_kind_code(doors.west);
    let e = door_kind_code(doors.east);
    assert(n < 8 && s < 8 && w < 8 && e < 8);
    let a = encode_attrs_a(doors, attrs_a);
    let b = encode_attrs_b(doors, attrs_b);
    assert(a >> 5u8 == n && (a >> 2u8) & 7u8 == s) by (bit_vector)
        requires a == (attrs_a & 0x03u8) | (((n << 5u8) | (s << 2u8)) as u8), n < 8, s < 8;
    assert(b >> 5u8 == w && (b >> 2u8) & 7u8 == e) by (bit_vector)
        requires b == (attrs_b & 0x03u8) | (((w << 5u8) | (e << 2u8)) as u8), w < 8, e < 8;
    assert(n & 7u8 == n && s & 7u8 == s && w & 7u8 == w && e & 7u8 == e) by (bit_vector)
        requires n < 8, s < 8, w < 8, e < 8;
    lemma_door_kind_roundtrip(doors.north);
    lemma_door_kind_roundtrip(doors.south);
    lemma_door_kind_roundtrip(doors.west);
    lemma_door_kind_roundtrip(doors.east);
}

/// Packing keeps the two low bits of each attribute byte.
pub proof fn lemma_encode_keeps_low_bits(doors: DoorSet, attrs_a: u8, attrs_b: u8)
    ensures
        encode_attrs_a(doors, attrs_a) & 0x03u8 == attrs_a & 0x03u8,
        encode_attrs_b(doors, attrs_b) & 0x03u8 == attrs_b & 0x03u8,
{
    let n = door_kind_code(doors.north);
    let s = door_kind_code(doors.south);
    let w = door_kind_code(doors.west);
    let e = door_kind_code(doors.east);
    assert(n < 8 && s < 8 && w < 8 && e < 8);
    assert(((attrs_a & 0x03u8) | (((n << 5u8) | (s << 2u8)) as u8)) & 0x03u8 == attrs_a & 0x03u8) by (bit_vector)
        requires n < 8, s < 8;
    assert(((attrs_b & 0x03u8) | (((w << 5u8) | (e << 2u8)) as u8)) & 0x03u8 == attrs_b & 0x03u8) by (bit_vector)
        requires w < 8, e < 8;
}

/// Decoding attribute bytes and packing the doors back restores the bytes exactly
/// when no door field holds code 6 (which decodes to a locked door, stored as 5).
pub proof fn lemma_decode_encode_attrs(attrs_a: u8, attrs_b: u8)
    requires
        attrs_a >> 5u8 != 6,
        (attrs_a >> 2u8) & 7u8 != 6,
        attrs_b >> 5u8 != 6,
        (attrs_b >> 2u8) & 7u8 != 6,
    ensures
        encode_attrs_a(doors_of_attrs(attrs_a, attrs_b), attrs_a) == attrs_a,
        encode_attrs_b(doors_of_attrs(attrs_a, attrs_b), attrs_b) == attrs_b,
{
    let d = doors_of_attrs(attrs_a, attrs_b);
    let n = attrs_a >> 5u8;
    let s = (attrs_a >> 2u8) & 7u8;
    let w = attrs_b >> 5u8;
    let e = (attrs_b >> 2u8) & 7u8;
    assert(n < 8 && n & 7u8 == n && w < 8 && w & 7u8 == w && s < 8 && s & 7u8 == s && e < 8 && e & 7u8 == e) by (bit_vector)
        requires n == attrs_a >> 5u8, s == (attrs_a >> 2u8) & 7u8, w == attrs_b >> 5u8, e == (attrs_b >> 2u8) & 7u8;
    assert(door_kind_code(d.north) == n);
    assert(door_kind_code(d.south) == s);
    assert(door_kind_code(d.west) == w);
    assert(door_kind_code(d.east) == e);
    assert((attrs_a & 0x03u8) | (((n << 5u8) | (s << 2u8)) as u8) == attrs_a) by (bit_vector)
        requires n == attrs_a >> 5u8, s == (attrs_a >> 2u8) & 7u8;
    assert((attrs_b & 0x03u8) | (((w << 5u8) | (e << 2u8)) as u8) == attrs_b) by (bit_vector)
        requires w == attrs_b >> 5u8, e == (attrs_b >> 2u8) & 7u8;
}

} // verus!
