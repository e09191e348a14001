pub mod door_kind;
pub mod door_set;
pub mod room_item;
pub mod room_trigger;
pub mod room_data;
pub mod dungeon_levels;
