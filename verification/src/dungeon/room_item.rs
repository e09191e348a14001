use vstd::prelude::*;

verus! {

/// The item placed in a room: the low five bits of AttrsE.
#[derive(Debug, Clone, Copy, PartialEq, Eq)]
pub enum RoomItem {
    /// Item code $03 marks a room without an item.
    NoItem,
    MagicKey,
    TriforceOfPower,
    FiveRupees,
    Compass,
    DungeonMap,
    Rupees,
    Key,
    HeartContainer,
    Triforce,
    /// Any other item code.
    Other(u8),
}

/// The item that an item code denotes.
pub open spec fn item_of_id(id: u8) -> RoomItem {
    if id == 0x03 {
        RoomItem::NoItem
    } else if id == 0x0B {
        RoomItem::MagicKey
    } else if id == 0x0E {
        RoomItem::TriforceOfPower
    } else if id == 0x0F {
        RoomItem::FiveRupees
    } else if id == 0x16 {
        RoomItem::Compass
    } else if id == 0x17 {
        RoomItem::DungeonMap
    } else if id == 0x18 {
        RoomItem::Rupees
    } else if id == 0x19 {
        RoomItem::Key
    } else if id == 0x1A {
        RoomItem::HeartContainer
    } else if id == 0x1B {
        RoomItem::Triforce
    } else {
        RoomItem::Other(id)
    }
}

/// The spoiler-log label of an item.
pub open spec fn item_label(item: RoomItem) -> Seq<char> {
    match item {
        RoomItem::NoItem => "-"@,
        RoomItem::MagicKey => "Magic Key"@,
        RoomItem::TriforceOfPower => "Triforce of Power"@,
        RoomItem::FiveRupees => "5 Rupees"@,
        RoomItem::Compass => "Compass"@,
        RoomItem::DungeonMap => "Map"@,
        RoomItem::Rupees => "Rupees"@,
        RoomItem::Key => "Key"@,
        RoomItem::HeartContainer => "Heart Container"@,
        RoomItem::Triforce => "Triforce"@,
        RoomItem::Other(_) => "Item"@,
    }
}

impl RoomItem {
    /// Decode an item code.
    pub fn from_id(id: u8) -> (item: RoomItem)
        ensures
            item == item_of_id(id),
    {
        if id == 0x03 {
            RoomItem::NoItem
        } else if id == 0x0B {
            RoomItem::MagicKey
        } else if id == 0x0E {
            RoomItem::TriforceOfPower
        } else if id == 0x0F {
            RoomItem::FiveRupees
        } else if id == 0x16 {
            RoomItem::Compass
        } else if id == 0x17 {
            RoomItem::DungeonMap
        } else if id == 0x18 {
            RoomItem::Rupees
        } else if id == 0x19 {
            RoomItem::Key
        } else if id == 0x1A {
            RoomItem::HeartContainer
        } else if id == 0x1B {
            RoomItem::Triforce
        } else {
            RoomItem::Other(id)
        }
    }

    /// The spoiler-log label of this item.
    pub fn label(&self) -> (s: &'static str)
        ensures
            s@ == item_label(*self),
    {
        match self {
            RoomItem::NoItem => "-",
            RoomItem::MagicKey => "Magic Key",
            RoomItem::TriforceOfPower => "Triforce of Power",
            RoomItem::FiveRupees => "5 Rupees",
            RoomItem::Compass => "Compass",
            RoomItem::DungeonMap => "Map",
            RoomItem::Rupees => "Rupees",
            RoomItem::Key => "Key",
            RoomItem::HeartContainer => "Heart Container",
            RoomItem::Triforce => "Triforce",
            RoomItem::Other(_) => "Item",
        }
    }
}

} // verus!
