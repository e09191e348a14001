use vstd::prelude::*;

verus! {

/// The kind of a door on one wall of a dungeon room.
#[derive(Debug, Clone, Copy, PartialEq, Eq)]
pub enum DoorKind {
    Open,
    Wall,
    InvisibleWall,
    PushBlock,
    Bombable,
    Locked,
    Shutter,
}

/// The door kind that a 3-bit door field denotes (only the low three bits count;
/// both 5 and 6 denote a locked door).
pub open spec fn door_kind_of_bits(bits: u8) -> DoorKind {
    let v = bits & 0x07;
    if v == 0 {
        DoorKind::Open
    } else if v == 1 {
        DoorKind::Wall
    } else if v == 2 {
        DoorKind::InvisibleWall
    } else if v == 3 {
        DoorKind::PushBlock
    } else if v == 4 {
        DoorKind::Bombable
    } else if v == 5 || v == 6 {
        DoorKind::Locked
    } else {
        DoorKind::Shutter
    }
}

/// The 3-bit code under which a door kind is stored.
pub open spec fn door_kind_code(kind: DoorKind) -> u8 {
    match kind {
        DoorKind::Open => 0,
        DoorKind::Wall => 1,
        DoorKind::InvisibleWall => 2,
        DoorKind::PushBlock => 3,
        DoorKind::Bombable => 4,
        DoorKind::Locked => 5,
        DoorKind::Shutter => 7,
    }
}

impl DoorKind {
    /// Decode a door kind from the low three bits of `bits`.
    pub fn from_bits(bits: u8) -> (kind: DoorKind)
        ensures
            kind == door_kind_of_bits(bits),
    {
        let v = bits & 0x07;
        if v == 0 {
            DoorKind::Open
        } else if v == 1 {
            DoorKind::Wall
        } else if v == 2 {
            DoorKind::InvisibleWall
        } else if v == 3 {
            DoorKind::PushBlock
        } else if v == 4 {
            DoorKind::Bombable
        } else if v == 5 || v == 6 {
            DoorKind::Locked
        } else {
            DoorKind::Shutter
        }
    }

    /// The 3-bit code of this door kind.
    pub fn to_bits(self) -> (bits: u8)
        ensures
            bits == door_kind_code(self),
            bits < 8,
    {
        match self {
            DoorKind::Open => 0,
            DoorKind::Wall => 1,
            DoorKind::InvisibleWall => 2,
            DoorKind::PushBlock => 3,
            DoorKind::Bombable => 4,
            DoorKind::Locked => 5,
            DoorKind::Shutter => 7,
        }
    }

    /// The spoiler-log label of this door kind.
    pub fn label(self) -> (s: &'static str)
        ensures
            s@ == door_kind_label(self),
    {
        match self {
            DoorKind::Open => "open",
            DoorKind::Wall => "wall",
            DoorKind::InvisibleWall => "invisible-wall",
            DoorKind::Locked => "locked",
            DoorKind::PushBlock => "push-block",
            DoorKind::Bombable => "bombable",
            DoorKind::Shutter => "shutter",
        }
    }
}

/// The spoiler-log label of a door kind.
pub open spec fn door_kind_label(kind: DoorKind) -> Seq<char> {
    match kind {
        DoorKind::Open => "open"@,
        DoorKind::Wall => "wall"@,
        DoorKind::InvisibleWall => "invisible-wall"@,
        DoorKind::Locked => "locked"@,
        DoorKind::PushBlock => "push-block"@,
        DoorKind::Bombable => "bombable"@,
        DoorKind::Shutter => "shutter"@,
    }
}

/// Decoding the code of a door kind gives the same kind back.
pub proof fn lemma_door_kind_roundtrip(kind: DoorKind)
    ensures
        door_kind_of_bits(door_kind_code(kind)) == kind,
{
    assert(0u8 & 7 == 0 && 1u8 & 7 == 1 && 2u8 & 7 == 2 && 3u8 & 7 == 3 && 4u8 & 7 == 4 && 5u8 & 7 == 5 && 7u8 & 7 == 7) by (bit_vector);
}

} // verus!
