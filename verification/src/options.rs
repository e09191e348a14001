use vstd::prelude::*;

verus! {

/// The items, counts and hearts Link starts with.
#[derive(Debug, Clone, Copy, PartialEq, Eq)]
pub struct StartInventoryOptions {
    pub start_sword: u8,
    pub start_arrow: u8,
    pub start_bow: bool,
    pub start_candle: u8,
    pub start_ring: u8,
    pub start_magic_shield: u8,
    pub start_boomerang: u8,
    pub start_bombs: u8,
    pub max_bombs: u8,
    pub start_rupees: u8,
    pub start_keys: u8,
    pub heart_containers: u8,
    pub start_food: bool,
    pub start_potion: u8,
    pub start_recorder: bool,
    pub start_magic_rod: bool,
    pub start_raft: bool,
    pub start_book: bool,
    pub start_ladder: bool,
    pub start_magic_key: bool,
    pub start_bracelet: bool,
    pub start_letter: bool,
}

impl Default for StartInventoryOptions {
    /// Nothing: every count zero and every item absent.
    fn default() -> (o: Self)
        ensures
            o == (StartInventoryOptions {
                start_sword: 0,
                start_arrow: 0,
                start_bow: false,
                start_candle: 0,
                start_ring: 0,
                start_magic_shield: 0,
                start_boomerang: 0,
                start_bombs: 0,
                max_bombs: 0,
                start_rupees: 0,
                start_keys: 0,
                heart_containers: 0,
                start_food: false,
                start_potion: 0,
                start_recorder: false,
                start_magic_rod: false,
                start_raft: false,
                start_book: false,
                start_ladder: false,
                start_magic_key: false,
                start_bracelet: false,
                start_letter: false,
            }),
    {
        StartInventoryOptions {
            start_sword: 0,
            start_arrow: 0,
            start_bow: false,
            start_candle: 0,
            start_ring: 0,
            start_magic_shield: 0,
            start_boomerang: 0,
            start_bombs: 0,
            max_bombs: 0,
            start_rupees: 0,
            start_keys: 0,
            heart_containers: 0,
            start_food: false,
            start_potion: 0,
            start_recorder: false,
            start_magic_rod: false,
            start_raft: false,
            start_book: false,
            start_ladder: false,
            start_magic_key: false,
            start_bracelet: false,
            start_letter: false,
        }
    }
}

/// Per-dungeon progress Link starts with; index 0 is dungeon 1.
#[derive(Debug, Clone, Copy, PartialEq, Eq)]
pub struct ProgressionOptions {
    pub compasses: [bool; 9],
    pub maps: [bool; 9],
    pub triforce_pieces: [bool; 9],
    pub bosses_defeated: [bool; 9],
}

impl Default for ProgressionOptions {
    /// No progress in any dungeon.
    fn default() -> (o: Self)
        ensures
            forall|i: int| 0 <= i < 9 ==> !o.compasses@[i] && !o.maps@[i] && !o.triforce_pieces@[i] && !o.bosses_defeated@[i],
    {
        ProgressionOptions {
            compasses: [false; 9],
            maps: [false; 9],
            triforce_pieces: [false; 9],
            bosses_defeated: [false; 9],
        }
    }
}

} // verus!
