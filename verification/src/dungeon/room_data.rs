use vstd::prelude::*;
use crate::dungeon::door_kind::door_kind_label;
use crate::dungeon::door_set::{DoorSet, is_notable_door};
use crate::dungeon::room_item::{RoomItem, item_label};
use crate::dungeon::room_trigger::{RoomTrigger, trigger_label};
use crate::text::{hex2, push_hex2};

verus! {

/// Per-room data.
#[derive(Debug, Clone, Copy, PartialEq, Eq)]
pub struct RoomData {
    pub room_id: u8,
    pub item: RoomItem,
    pub trigger: RoomTrigger,
    pub doors: DoorSet,
}

/// The room has an item, a trigger, or a door that is neither open nor a wall.
pub open spec fn room_is_notable(r: RoomData) -> bool {
    r.item != RoomItem::NoItem || r.trigger != RoomTrigger::NoTrigger || is_notable_door(r.doors.north)
        || is_notable_door(r.doors.south) || is_notable_door(r.doors.east) || is_notable_door(r.doors.west)
}

/// The spoiler-log table row of a room:
/// `| Room $XX | item | trigger | north | south | east | west |`.
pub open spec fn room_row(r: RoomData) -> Seq<char> {
    "| Room $"@ + hex2(r.room_id) + " | "@ + item_label(r.item) + " | "@ + trigger_label(r.trigger) + " | "@
        + door_kind_label(r.doors.north) + " | "@ + door_kind_label(r.doors.south) + " | "@
        + door_kind_label(r.doors.east) + " | "@ + door_kind_label(r.doors.west) + " |"@
}

impl RoomData {
    /// True if this room has anything worth showing in the spoiler log.
    pub fn is_notable(&self) -> (b: bool)
        ensures
            b == room_is_notable(*self),
    {
        let has_item = match self.item {
            RoomItem::NoItem => false,
            _ => true,
        };
        let has_trigger = match self.trigger {
            RoomTrigger::NoTrigger => false,
            _ => true,
        };
        has_item || has_trigger || self.doors.has_notable()
    }

    /// Append the spoiler-log table row of this room.
    pub fn push_row(&self, s: &mut String)
        ensures
            final(s)@ == old(s)@ + room_row(*self),
    {
        let ghost s0 = s@;
        s.append("| Room $");
        push_hex2(s, self.room_id);
        s.append(" | ");
        s.append(self.item.label());
        s.append(" | ");
        let ghost p1 = "| Room $"@ + hex2(self.room_id) + " | "@ + item_label(self.item) + " | "@;
        assert(s@ =~= s0 + p1);
        s.append(self.trigger.label());
        s.append(" | ");
        s.append(self.doors.north.label());
        s.append(" | ");
        let ghost p2 = p1 + trigger_label(self.trigger) + " | "@ + door_kind_label(self.doors.north) + " | "@;
        assert(s@ =~= s0 + p2);
        s.append(self.doors.south.label());
        s.append(" | ");
        s.append(self.doors.east.label());
        s.append(" | ");
        s.append(self.doors.west.label());
        s.append(" |");
        let ghost p3 = p2 + door_kind_label(self.doors.south) + " | "@ + door_kind_label(self.doors.east) + " | "@
            + door_kind_label(self.doors.west) + " |"@;
        assert(s@ =~= s0 + p3);
        assert(p3 =~= room_row(*self));
    }

    /// The spoiler-log table row of this room.
    pub fn format_row(&self) -> (s: String)
        ensures
            s@ == room_row(*self),
    {
        let mut s = String::new();
        self.push_row(&mut s);
        assert(s@ =~= room_row(*self));
        s
    }
}

} // verus!
