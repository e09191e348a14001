use vstd::prelude::*;
use crate::locations::STARTING_INVENTORY_DATA;
use crate::options::{ProgressionOptions, StartInventoryOptions};
use crate::patch::{
    apply_bspatch, bspatch_result, bsdiff_result, diff_bytes, has_bsdiff40_header, header_sizes_fit,
    header_sizes_too_large,
};
use crate::locations::{
    FIRST_QUEST_DUNGEON_DATA_EARLY, FIRST_QUEST_DUNGEON_DATA_LATE, PRICE_ARROW_LEFT, PRICE_ARROW_MIDDLE,
    PRICE_ARROW_RIGHT, PRICE_CANDLE_LEFT, PRICE_CANDLE_MIDDLE, PRICE_CANDLE_RIGHT, PRICE_POTION_LEFT,
    PRICE_POTION_MIDDLE, PRICE_POTION_RIGHT, PRICE_RING_LEFT, PRICE_RING_MIDDLE, PRICE_RING_RIGHT,
    PRICE_SHIELD_LEFT, PRICE_SHIELD_MIDDLE, PRICE_SHIELD_RIGHT, SHOP_ARROW_LEFT, SHOP_ARROW_MIDDLE,
    SHOP_ARROW_RIGHT, SHOP_CANDLE_LEFT, SHOP_CANDLE_MIDDLE, SHOP_CANDLE_RIGHT, SHOP_POTION_LEFT,
    SHOP_POTION_MIDDLE, SHOP_POTION_RIGHT, SHOP_RING_LEFT, SHOP_RING_MIDDLE, SHOP_RING_RIGHT,
    SHOP_SHIELD_LEFT, SHOP_SHIELD_MIDDLE, SHOP_SHIELD_RIGHT,
};
use crate::cave::cave_levels::{CaveLevels, cave_text};
use crate::dungeon::dungeon_levels::levels_text;
use crate::cave::shop::Shop;
use crate::rom_ext::{
    LevelInfoRooms, ATTRS_B_OFFSET, ATTRS_E_OFFSET, ATTRS_F_OFFSET, attrs_a_offset, attrs_b_offset,
    attrs_e_offset, attrs_f_offset, bfs_dungeon_rooms_full, byte_at_or, byte_or, info_seeds,
    level_info_base, level_info_matches, level_info_present, level_info_rooms, lists_marked,
    lists_reachable, marked_ids, uw1_block_base, uw2_block_base,
};
use crate::dungeon::door_set::{DoorSet, doors_of_attrs};
use crate::dungeon::dungeon_levels::{DungeonLevel, DungeonLevels};
use crate::dungeon::room_data::RoomData;
use crate::dungeon::room_item::{RoomItem, item_of_id};
use crate::dungeon::room_trigger::{RoomTrigger, trigger_of_bits};

verus! {

/// Length of the starting-inventory block that the options are written into.
pub const INVENTORY_BLOCK_LEN: usize = 0x26;

/// Why a game image could not be built.
#[derive(Debug, PartialEq, Eq)]
pub enum GameError {
    /// The patch could not be read or applied; the text is the patcher's message.
    InvalidData(String),
}

/// A patched game image in memory, with the path of the base ROM it came from.
pub struct Game {
    base_rom_path: String,
    buffer: Vec<u8>,
}

impl View for Game {
    type V = Seq<u8>;

    /// The bytes of the game image.
    closed spec fn view(&self) -> Seq<u8> {
        self.buffer@
    }
}

/// 1 for true, 0 for false.
pub open spec fn flag(b: bool) -> u8 {
    if b {
        1
    } else {
        0
    }
}

/// The heart-container nibble: one less than the count, clamped to 0-15.
pub open spec fn heart_nibble(count: u8) -> int {
    let h = if count == 0 { 0int } else { count - 1 };
    if h > 15 {
        15
    } else {
        h
    }
}

/// The byte that the options put at offset `i` of the starting-inventory block, or None
/// where that byte is left as it was.
pub open spec fn inventory_byte(o: StartInventoryOptions, i: int) -> Option<u8> {
    if i == 0x00 {
        Some(o.start_sword)
    } else if i == 0x01 {
        Some(o.start_bombs)
    } else if i == 0x02 {
        Some(o.start_arrow)
    } else if i == 0x03 {
        Some(flag(o.start_bow))
    } else if i == 0x04 {
        Some(o.start_candle)
    } else if i == 0x05 {
        Some(flag(o.start_recorder))
    } else if i == 0x06 {
        Some(flag(o.start_food))
    } else if i == 0x07 {
        Some(o.start_potion)
    } else if i == 0x08 {
        Some(flag(o.start_magic_rod))
    } else if i == 0x09 {
        Some(flag(o.start_raft))
    } else if i == 0x0A {
        Some(flag(o.start_book))
    } else if i == 0x0B {
        Some(o.start_ring)
    } else if i == 0x0C {
        Some(flag(o.start_ladder))
    } else if i == 0x0D {
        Some(flag(o.start_magic_key))
    } else if i == 0x0E {
        Some(flag(o.start_bracelet))
    } else if i == 0x0F {
        Some(flag(o.start_letter))
    } else if i == 0x16 {
        Some(o.start_rupees)
    } else if i == 0x17 {
        Some(o.start_keys)
    } else if i == 0x18 {
        Some((heart_nibble(o.heart_containers) * 16 + heart_nibble(o.heart_containers)) as u8)
    } else if i == 0x19 {
        Some(0xFFu8)
    } else if i == 0x1D {
        Some(flag(o.start_boomerang == 1))
    } else if i == 0x1E {
        Some(flag(o.start_boomerang == 2))
    } else if i == 0x1F {
        Some(o.start_magic_shield)
    } else if i == 0x25 {
        Some(o.max_bombs)
    } else {
        None
    }
}

/// Bit `k` of `x` is set.
pub open spec fn bit_set(x: u8, k: u8) -> bool {
    (x >> k) & 1u8 == 1u8
}

/// The byte whose bits 0-7 are `bools[0..8]`.
pub open spec fn packs_low(byte: u8, bools: Seq<bool>) -> bool {
    forall|k: u8| k < 8 ==> (bit_set(byte, k) <==> bools[k as int])
}

/// The bytes that the progression options put into the starting-inventory block: compass
/// and map bits of dungeons 1-8 at +$10 and +$11, dungeon 9 at +$12 and +$13, triforce
/// pieces and defeated bosses of dungeons 1-8 at +$1A and +$1B. The options for the
/// ninth triforce piece and the ninth boss are not stored.
pub open spec fn progression_written(old: Seq<u8>, new: Seq<u8>, o: ProgressionOptions) -> bool {
    let off = STARTING_INVENTORY_DATA as int;
    &&& new.len() == old.len()
    &&& packs_low(new[off + 0x10], o.compasses@)
    &&& packs_low(new[off + 0x11], o.maps@)
    &&& new[off + 0x12] == flag(o.compasses@[8])
    &&& new[off + 0x13] == flag(o.maps@[8])
    &&& packs_low(new[off + 0x1A], o.triforce_pieces@)
    &&& packs_low(new[off + 0x1B], o.bosses_defeated@)
    &&& forall|j: int|
        0 <= j < old.len() && j != off + 0x10 && j != off + 0x11 && j != off + 0x12 && j != off + 0x13
            && j != off + 0x1A && j != off + 0x1B ==> new[j] == old[j]
}

/// The image after the starting inventory is written: unchanged if the image is too
/// short to hold the block, else each byte of the block that the options set.
pub open spec fn inventory_applied(old: Seq<u8>, o: StartInventoryOptions) -> Seq<u8> {
    let off = STARTING_INVENTORY_DATA as int;
    if old.len() < off + INVENTORY_BLOCK_LEN {
        old
    } else {
        Seq::new(
            old.len(),
            |j: int|
                if off <= j < off + INVENTORY_BLOCK_LEN && inventory_byte(o, j - off) is Some {
                    inventory_byte(o, j - off)->0
                } else {
                    old[j]
                },
        )
    }
}

/// The byte that the options put at offset `i` of the starting-inventory block.
fn inventory_byte_at(o: &StartInventoryOptions, i: usize) -> (b: Option<u8>)
    ensures
        b == inventory_byte(*o, i as int),
{
    if i == 0x00 {
        Some(o.start_sword)
    } else if i == 0x01 {
        Some(o.start_bombs)
    } else if i == 0x02 {
        Some(o.start_arrow)
    } else if i == 0x03 {
        Some(if o.start_bow { 1 } else { 0 })
    } else if i == 0x04 {
        Some(o.start_candle)
    } else if i == 0x05 {
        Some(if o.start_recorder { 1 } else { 0 })
    } else if i == 0x06 {
        Some(if o.start_food { 1 } else { 0 })
    } else if i == 0x07 {
        Some(o.start_potion)
    } else if i == 0x08 {
        Some(if o.start_magic_rod { 1 } else { 0 })
    } else if i == 0x09 {
        Some(if o.start_raft { 1 } else { 0 })
    } else if i == 0x0A {
        Some(if o.start_book { 1 } else { 0 })
    } else if i == 0x0B {
        Some(o.start_ring)
    } else if i == 0x0C {
        Some(if o.start_ladder { 1 } else { 0 })
    } else if i == 0x0D {
        Some(if o.start_magic_key { 1 } else { 0 })
    } else if i == 0x0E {
        Some(if o.start_bracelet { 1 } else { 0 })
    } else if i == 0x0F {
        Some(if o.start_letter { 1 } else { 0 })
    } else if i == 0x16 {
        Some(o.start_rupees)
    } else if i == 0x17 {
        Some(o.start_keys)
    } else if i == 0x18 {
        // Heart containers: 3 containers are stored as $22.
        let hc0 = o.heart_containers.saturating_sub(1);
        let hc = if hc0 < 15 { hc0 } else { 15 };
        assert((hc << 4) | hc == hc * 16 + hc) by (bit_vector)
            requires hc <= 15;
        Some((hc << 4) | hc)
    } else if i == 0x19 {
        // Partial heart.
        Some(0xFF)
    } else if i == 0x1D {
        Some(if o.start_boomerang == 1 { 1 } else { 0 })
    } else if i == 0x1E {
        Some(if o.start_boomerang == 2 { 1 } else { 0 })
    } else if i == 0x1F {
        Some(o.start_magic_shield)
    } else if i == 0x25 {
        Some(o.max_bombs)
    } else {
        None
    }
}

/// Pack nine flags: bits 0-7 of the first byte hold flags 0-7, the second byte is 1 iff
/// flag 8 is set.
fn pack_bits(bools: &[bool; 9]) -> (r: (u8, u8))
    ensures
        packs_low(r.0, bools@),
        r.1 == flag(bools@[8]),
{
    let mut byte0: u8 = 0;
    let mut i: u8 = 0;
    assert forall|k: u8| k < 8 implies !bit_set(0u8, k) by {
        assert((0u8 >> k) & 1u8 == 0u8) by (bit_vector);
    }
    while i < 8
        invariant
            i <= 8,
            forall|k: u8| k < i ==> (bit_set(byte0, k) <==> bools@[k as int]),
            forall|k: u8| i <= k < 8 ==> !bit_set(byte0, k),
        decreases 8 - i,
    {
        let old_byte = byte0;
        if bools[i as usize] {
            byte0 = byte0 | (1u8 << i);
            assert forall|k: u8| k < 8 implies (bit_set(byte0, k) <==> (k == i || bit_set(old_byte, k))) by {
                assert(((old_byte | (1u8 << i)) >> k) & 1u8 == 1u8 <==> (k == i || (old_byte >> k) & 1u8 == 1u8))
                    by (bit_vector)
                    requires i < 8, k < 8;
            }
        }
        i = i + 1;
    }
    let byte1: u8 = if bools[8] { 1 } else { 0 };
    (byte0, byte1)
}

impl Game {
    /// The path of the base ROM this image was built from.
    pub closed spec fn rom_path(&self) -> Seq<char> {
        self.base_rom_path@
    }

    /// Build a `Game` from an already-patched ROM image.
    ///
    /// Useful for reading an existing `.nes` file directly without needing
    /// the clean base ROM and a bsdiff patch.
    pub fn from_buffer(path: String, buffer: Vec<u8>) -> (g: Self)
        ensures
            g@ == buffer@,
            g.rom_path() == path@,
    {
        Game { base_rom_path: path, buffer }
    }

    /// Build a `Game` by applying a bsdiff-4 patch to the bytes of the base ROM.
    /// A patch that cannot be read or applied gives `InvalidData` with the patcher's message;
    /// one whose header sizes overflow the patcher's check is left out (`patch_header_fits`
    /// tells them apart).
    pub fn create_from_patch(base_rom_path: String, old: &[u8], patch_data: &[u8]) -> (res: Result<Self, GameError>)
        requires
            header_sizes_fit(patch_data@),
        ensures
            match bspatch_result(old@, patch_data@) {
                Ok(t) => res matches Ok(g) && g@ == t && g.rom_path() == base_rom_path@,
                Err(m) => res matches Err(GameError::InvalidData(e)) && e@ == m,
            },
            !has_bsdiff40_header(patch_data@) || header_sizes_too_large(patch_data@) ==> res is Err,
    {
        match apply_bspatch(old, patch_data) {
            Ok(buffer) => Ok(Game::from_buffer(base_rom_path, buffer)),
            Err(e) => Err(GameError::InvalidData(e)),
        }
    }

    /// The bytes of the game image.
    pub fn buffer(&self) -> (b: &[u8])
        ensures
            b@ == self@,
    {
        self.buffer.as_slice()
    }

    /// The path of the base ROM.
    pub fn base_rom_path(&self) -> (p: &str)
        ensures
            p@ == self.rom_path(),
    {
        self.base_rom_path.as_str()
    }

    /// The patch from the base ROM bytes `old` to this image, as the `bsdiff` crate writes it.
    /// Computed in memory, it always succeeds; a failure would give `InvalidData` with the
    /// differ's message.
    pub fn make_patch(&self, old: &[u8]) -> (res: Result<Vec<u8>, GameError>)
        ensures
            match bsdiff_result(old@, self@) {
                Ok(p) => res matches Ok(v) && v@ == p,
                Err(m) => res matches Err(GameError::InvalidData(e)) && e@ == m,
            },
            res is Ok,
    {
        match diff_bytes(old, self.buffer.as_slice()) {
            Ok(p) => Ok(p),
            Err(e) => Err(GameError::InvalidData(e)),
        }
    }

    /// Write the starting inventory into its block of the image (the image is left as it
    /// is when too short to hold the block).
    pub fn set_starting_inventory(&mut self, options: &StartInventoryOptions)
        ensures
            final(self)@ == inventory_applied(old(self)@, *options),
            final(self).rom_path() == old(self).rom_path(),
    {
        let offset = STARTING_INVENTORY_DATA;
        if self.buffer.len() < offset + INVENTORY_BLOCK_LEN {
            return;
        }
        let ghost old_buf = self.buffer@;
        let mut i: usize = 0;
        while i < INVENTORY_BLOCK_LEN
            invariant
                i <= INVENTORY_BLOCK_LEN,
                offset == STARTING_INVENTORY_DATA,
                self.rom_path() == old(self).rom_path(),
                old_buf.len() >= offset + INVENTORY_BLOCK_LEN,
                self.buffer@ =~= Seq::new(
                    old_buf.len(),
                    |j: int|
                        if offset <= j < offset + i && inventory_byte(*options, j - offset) is Some {
                            inventory_byte(*options, j - offset)->0
                        } else {
                            old_buf[j]
                        },
                ),
            decreases INVENTORY_BLOCK_LEN - i,
        {
            match inventory_byte_at(options, i) {
                Some(v) => {
                    self.buffer.set(offset + i, v);
                },
                None => {},
            }
            i = i + 1;
        }
    }

    /// Write the starting compasses, maps, triforce pieces and defeated bosses into the
    /// starting-inventory block (the image is left as it is when too short to hold it).
    pub fn set_progression(&mut self, options: &ProgressionOptions)
        ensures
            old(self)@.len() < STARTING_INVENTORY_DATA + INVENTORY_BLOCK_LEN ==> final(self)@ == old(self)@,
            old(self)@.len() >= STARTING_INVENTORY_DATA + INVENTORY_BLOCK_LEN ==> progression_written(
                old(self)@,
                final(self)@,
                *options,
            ),
            final(self).rom_path() == old(self).rom_path(),
    {
        let offset = STARTING_INVENTORY_DATA;
        if self.buffer.len() < offset + INVENTORY_BLOCK_LEN {
            return;
        }
        let (compass_b0, compass_b1) = pack_bits(&options.compasses);
        let (map_b0, map_b1) = pack_bits(&options.maps);
        let (triforce_b0, _) = pack_bits(&options.triforce_pieces);
        let (bosses_b0, _) = pack_bits(&options.bosses_defeated);
        self.buffer.set(offset + 0x10, compass_b0);
        self.buffer.set(offset + 0x11, map_b0);
        self.buffer.set(offset + 0x12, compass_b1);
        self.buffer.set(offset + 0x13, map_b1);
        self.buffer.set(offset + 0x1A, triforce_b0);
        self.buffer.set(offset + 0x1B, bosses_b0);
    }
}

// ---------------------------------------------------------------------------
// Reading the dungeons.
// ---------------------------------------------------------------------------

/// The LevelBlock of a dungeon: dungeons 1-6 share the early block, 7-9 the late one.
pub open spec fn dungeon_block_base(dungeon: u8) -> int {
    if dungeon <= 6 {
        FIRST_QUEST_DUNGEON_DATA_EARLY as int
    } else {
        FIRST_QUEST_DUNGEON_DATA_LATE as int
    }
}

/// The start, triforce and boss rooms and the ten cellar slots of a dungeon, as its
/// LevelInfo block records them; where the block cannot be read, start room $73 and
/// every other entry $FF.
pub open spec fn dungeon_seeds(buf: Seq<u8>, dungeon: u8) -> Seq<u8> {
    if level_info_present(buf, dungeon) {
        let b = level_info_base(buf, dungeon)->0;
        seq![buf[b + 0x2F], buf[b + 0x30], buf[b + 0x3E]] + Seq::new(10, |i: int| byte_or(buf, b + 0x34 + i, 0xFF))
    } else {
        seq![0x73u8, 0xFFu8, 0xFFu8] + Seq::new(10, |i: int| 0xFFu8)
    }
}

/// The ten cellar slots of a dungeon.
pub open spec fn dungeon_cellar_slots(buf: Seq<u8>, dungeon: u8) -> Seq<u8> {
    dungeon_seeds(buf, dungeon).subrange(3, 13)
}

/// The data of room `id`: item from the low five bits of AttrsE ($03, no item, past the
/// buffer), trigger from the low three bits of AttrsF, doors from AttrsA and AttrsB.
pub open spec fn room_data_at(buf: Seq<u8>, base: int, id: u8) -> RoomData {
    RoomData {
        room_id: id,
        item: item_of_id(byte_or(buf, base + ATTRS_E_OFFSET + id, 0x03) & 0x1Fu8),
        trigger: trigger_of_bits(byte_or(buf, base + ATTRS_F_OFFSET + id, 0) & 0x07u8),
        doors: doors_of_attrs(byte_or(buf, base + id, 0), byte_or(buf, base + ATTRS_B_OFFSET + id, 0)),
    }
}

/// The cellar reached from slot room `cr` holds an item.
pub open spec fn is_item_cellar(buf: Seq<u8>, base: int, cr: u8) -> bool {
    item_of_id(byte_or(buf, base + ATTRS_E_OFFSET + cr, 0) & 0x1Fu8) != RoomItem::NoItem
}

/// Room `x` is an entrance of the cellar in slot room `cr`: its AttrsA or AttrsB byte
/// ($FF past the buffer) names `x`, a room ID below $80.
pub open spec fn cellar_links(buf: Seq<u8>, base: int, cr: u8, x: u8) -> bool {
    x < 0x80 && (byte_or(buf, base + cr, 0xFF) == x || byte_or(buf, base + ATTRS_B_OFFSET + cr, 0xFF) == x)
}

/// Room `x` is an entrance of a used cellar slot whose cellar holds an item (`item`) or not.
pub open spec fn is_entrance(buf: Seq<u8>, base: int, slots: Seq<u8>, x: u8, item: bool) -> bool {
    exists|i: int|
        0 <= i < slots.len() && slots[i] != 0xFF && is_item_cellar(buf, base, #[trigger] slots[i]) == item
            && cellar_links(buf, base, slots[i], x)
}

/// The entrance marks of one kind of cellar.
pub open spec fn entrance_marks(buf: Seq<u8>, base: int, slots: Seq<u8>, item: bool) -> Seq<bool> {
    Seq::new(0x80, |r: int| is_entrance(buf, base, slots, r as u8, item))
}

/// The used cellar slots ($FF marks an unused one), in slot order.
pub open spec fn used_slots(slots: Seq<u8>) -> Seq<u8>
    decreases slots.len(),
{
    if slots.len() == 0 {
        seq![]
    } else if slots.last() == 0xFF {
        used_slots(slots.drop_last())
    } else {
        used_slots(slots.drop_last()).push(slots.last())
    }
}

/// `lvl` is what the image shows of dungeon `dungeon`: its start and triforce rooms from
/// LevelInfo, the rooms reachable from the seed rooms with their data in increasing
/// order, both kinds of cellar entrances in increasing order, the used cellar slots,
/// and an all-clear map mask with no rotation.
pub open spec fn dungeon_level_of(buf: Seq<u8>, dungeon: u8, lvl: DungeonLevel) -> bool {
    let base = dungeon_block_base(dungeon);
    let seeds = dungeon_seeds(buf, dungeon);
    let slots = dungeon_cellar_slots(buf, dungeon);
    &&& lvl.dungeon == dungeon
    &&& lvl.start_room == seeds[0]
    &&& lvl.triforce_room == seeds[1]
    &&& lvl.map_mask@ == Seq::new(16, |i: int| 0u8)
    &&& lvl.map_rotation == 0
    &&& lists_reachable(lvl.rooms@.map_values(|r: RoomData| r.room_id), buf, base, seeds)
    &&& forall|i: int| 0 <= i < lvl.rooms@.len() ==> lvl.rooms@[i] == room_data_at(buf, base, #[trigger] lvl.rooms@[i].room_id)
    &&& lists_marked(lvl.cellar_entrances@, entrance_marks(buf, base, slots, false))
    &&& lists_marked(lvl.item_cellar_entrances@, entrance_marks(buf, base, slots, true))
    &&& lvl.cellar_rooms@ == used_slots(slots)
}

/// Read the data of room `room_id` in the block at `base`.
fn read_room(buf: &[u8], base: usize, room_id: u8) -> (r: RoomData)
    requires
        base + 0x400 <= usize::MAX,
    ensures
        r == room_data_at(buf@, base as int, room_id),
{
    let raw_a = byte_at_or(buf, attrs_a_offset(base, room_id), 0);
    let raw_b = byte_at_or(buf, attrs_b_offset(base, room_id), 0);
    let raw_e = byte_at_or(buf, attrs_e_offset(base, room_id), 0x03);
    let raw_f = byte_at_or(buf, attrs_f_offset(base, room_id), 0);
    RoomData {
        room_id,
        item: RoomItem::from_id(raw_e & 0x1F),
        trigger: RoomTrigger::from_bits(raw_f & 0x07),
        doors: DoorSet::from_attrs(raw_a, raw_b),
    }
}

/// Read the data of each listed room, in list order.
fn read_rooms(buf: &[u8], base: usize, ids: &Vec<u8>) -> (rooms: Vec<RoomData>)
    requires
        base + 0x400 <= usize::MAX,
    ensures
        rooms@.map_values(|r: RoomData| r.room_id) == ids@,
        forall|i: int| 0 <= i < rooms@.len() ==> rooms@[i] == room_data_at(buf@, base as int, #[trigger] rooms@[i].room_id),
{
    let mut rooms: Vec<RoomData> = Vec::new();
    let mut i: usize = 0;
    while i < ids.len()
        invariant
            i <= ids@.len(),
            base + 0x400 <= usize::MAX,
            rooms@.len() == i,
            forall|k: int| 0 <= k < i ==> rooms@[k] == room_data_at(buf@, base as int, ids@[k]),
        decreases ids@.len() - i,
    {
        rooms.push(read_room(buf, base, ids[i]));
        i = i + 1;
    }
    assert(rooms@.map_values(|r: RoomData| r.room_id) =~= ids@);
    rooms
}

/// Mark the entrances of the used cellar slots, split by whether the cellar holds an item.
fn cellar_entrances_of(buf: &[u8], base: usize, slots: &[u8; 10]) -> (r: (Vec<u8>, Vec<u8>))
    requires
        base + 0x400 <= usize::MAX,
    ensures
        lists_marked(r.0@, entrance_marks(buf@, base as int, slots@, false)),
        lists_marked(r.1@, entrance_marks(buf@, base as int, slots@, true)),
{
    let mut plain: Vec<bool> = Vec::new();
    let mut items: Vec<bool> = Vec::new();
    let mut k: usize = 0;
    while k < 0x80
        invariant
            k <= 0x80,
            plain@.len() == k,
            items@.len() == k,
            forall|j: int| 0 <= j < k ==> !plain@[j] && !items@[j],
        decreases 0x80 - k,
    {
        plain.push(false);
        items.push(false);
        k = k + 1;
    }
    let ghost gbuf = buf@;
    let ghost gbase = base as int;
    let mut i: usize = 0;
    while i < 10
        invariant
            i <= 10,
            base + 0x400 <= usize::MAX,
            gbuf == buf@,
            gbase == base as int,
            plain@.len() == 0x80,
            items@.len() == 0x80,
            forall|r: int| 0 <= r < 0x80 ==> (plain@[r] <==> is_entrance(gbuf, gbase, slots@.take(i as int), r as u8, false)),
            forall|r: int| 0 <= r < 0x80 ==> (items@[r] <==> is_entrance(gbuf, gbase, slots@.take(i as int), r as u8, true)),
        decreases 10 - i,
    {
        let cr = slots[i];
        let ghost pre = slots@.take(i as int);
        let ghost post = slots@.take(i + 1);
        assert(post =~= pre.push(cr));
        if cr != 0xFF {
            let raw_e = byte_at_or(buf, attrs_e_offset(base, cr), 0);
            let item = RoomItem::from_id(raw_e & 0x1F);
            let holds_item = match item {
                RoomItem::NoItem => false,
                _ => true,
            };
            let attrs_a = byte_at_or(buf, attrs_a_offset(base, cr), 0xFF);
            let attrs_b = byte_at_or(buf, attrs_b_offset(base, cr), 0xFF);
            let ghost old_plain = plain@;
            let ghost old_items = items@;
            if attrs_a != 0xFF && attrs_a < 0x80 {
                if holds_item {
                    items.set(attrs_a as usize, true);
                } else {
                    plain.set(attrs_a as usize, true);
                }
            }
            if attrs_b != 0xFF && attrs_b < 0x80 {
                if holds_item {
                    items.set(attrs_b as usize, true);
                } else {
                    plain.set(attrs_b as usize, true);
                }
            }
            proof {
                assert forall|r: int| 0 <= r < 0x80 implies (plain@[r] <==> is_entrance(gbuf, gbase, post, r as u8, false))
                    && (items@[r] <==> is_entrance(gbuf, gbase, post, r as u8, true)) by {
                    let x = r as u8;
                    if is_entrance(gbuf, gbase, post, x, false) {
                        let j = choose|j: int| 0 <= j < post.len() && post[j] != 0xFF
                            && is_item_cellar(gbuf, gbase, #[trigger] post[j]) == false && cellar_links(gbuf, gbase, post[j], x);
                        if j < pre.len() {
                            assert(pre[j] == post[j]);
                        }
                    }
                    if is_entrance(gbuf, gbase, post, x, true) {
                        let j = choose|j: int| 0 <= j < post.len() && post[j] != 0xFF
                            && is_item_cellar(gbuf, gbase, #[trigger] post[j]) == true && cellar_links(gbuf, gbase, post[j], x);
                        if j < pre.len() {
                            assert(pre[j] == post[j]);
                        }
                    }
                    if is_entrance(gbuf, gbase, pre, x, false) {
                        let j = choose|j: int| 0 <= j < pre.len() && pre[j] != 0xFF
                            && is_item_cellar(gbuf, gbase, #[trigger] pre[j]) == false && cellar_links(gbuf, gbase, pre[j], x);
                        assert(post[j] == pre[j]);
                    }
                    if is_entrance(gbuf, gbase, pre, x, true) {
                        let j = choose|j: int| 0 <= j < pre.len() && pre[j] != 0xFF
                            && is_item_cellar(gbuf, gbase, #[trigger] pre[j]) == true && cellar_links(gbuf, gbase, pre[j], x);
                        assert(post[j] == pre[j]);
                    }
                    if cellar_links(gbuf, gbase, cr, x) {
                        assert(post[i as int] == cr);
                    }
                }
            }
        } else {
            proof {
                assert forall|r: int| 0 <= r < 0x80 implies (plain@[r] <==> is_entrance(gbuf, gbase, post, r as u8, false))
                    && (items@[r] <==> is_entrance(gbuf, gbase, post, r as u8, true)) by {
                    let x = r as u8;
                    if is_entrance(gbuf, gbase, post, x, false) {
                        let j = choose|j: int| 0 <= j < post.len() && post[j] != 0xFF
                            && is_item_cellar(gbuf, gbase, #[trigger] post[j]) == false && cellar_links(gbuf, gbase, post[j], x);
                        assert(pre[j] == post[j]);
                    }
                    if is_entrance(gbuf, gbase, post, x, true) {
                        let j = choose|j: int| 0 <= j < post.len() && post[j] != 0xFF
                            && is_item_cellar(gbuf, gbase, #[trigger] post[j]) == true && cellar_links(gbuf, gbase, post[j], x);
                        assert(pre[j] == post[j]);
                    }
                    if is_entrance(gbuf, gbase, pre, x, false) {
                        let j = choose|j: int| 0 <= j < pre.len() && pre[j] != 0xFF
                            && is_item_cellar(gbuf, gbase, #[trigger] pre[j]) == false && cellar_links(gbuf, gbase, pre[j], x);
                        assert(post[j] == pre[j]);
                    }
                    if is_entrance(gbuf, gbase, pre, x, true) {
                        let j = choose|j: int| 0 <= j < pre.len() && pre[j] != 0xFF
                            && is_item_cellar(gbuf, gbase, #[trigger] pre[j]) == true && cellar_links(gbuf, gbase, pre[j], x);
                        assert(post[j] == pre[j]);
                    }
                }
            }
        }
        i = i + 1;
    }
    assert(slots@.take(10) =~= slots@);
    assert(plain@ =~= entrance_marks(gbuf, gbase, slots@, false));
    assert(items@ =~= entrance_marks(gbuf, gbase, slots@, true));
    (marked_ids(&plain), marked_ids(&items))
}

/// The used cellar slots, in slot order.
fn used_cellar_slots(slots: &[u8; 10]) -> (used: Vec<u8>)
    ensures
        used@ == used_slots(slots@),
{
    let mut used: Vec<u8> = Vec::new();
    let mut i: usize = 0;
    while i < 10
        invariant
            i <= 10,
            used@ == used_slots(slots@.take(i as int)),
        decreases 10 - i,
    {
        assert(slots@.take(i + 1).drop_last() =~= slots@.take(i as int));
        if slots[i] != 0xFF {
            used.push(slots[i]);
        }
        i = i + 1;
    }
    assert(slots@.take(10) =~= slots@);
    used
}

impl Game {
    /// Read everything the spoiler log shows of one dungeon (1-9).
    pub fn read_dungeon(&self, dungeon: u8) -> (lvl: DungeonLevel)
        requires
            1 <= dungeon <= 9,
        ensures
            dungeon_level_of(self@, dungeon, lvl),
    {
        let block_base = if dungeon <= 6 {
            uw1_block_base()
        } else {
            uw2_block_base()
        };
        let info = match level_info_rooms(self.buffer.as_slice(), dungeon) {
            Some(i) => i,
            None => LevelInfoRooms {
                start_room: 0x73,
                triforce_room: 0xFF,
                boss_room: 0xFF,
                cellar_rooms: [0xFF; 10],
            },
        };
        proof {
            if level_info_present(self@, dungeon) {
                let b = level_info_base(self@, dungeon)->0;
                assert(level_info_matches(self@, dungeon, info));
                assert(Seq::new(10, |i: int| byte_or(self@, b + 0x34 + i, 0xFF)) =~= info.cellar_rooms@);
            } else {
                assert(Seq::new(10, |i: int| 0xFFu8) =~= info.cellar_rooms@);
            }
            assert(info_seeds(info) =~= dungeon_seeds(self@, dungeon));
            assert(info.cellar_rooms@ =~= dungeon_cellar_slots(self@, dungeon));
        }
        let room_ids = bfs_dungeon_rooms_full(self.buffer.as_slice(), block_base, &info);
        let rooms = read_rooms(self.buffer.as_slice(), block_base, &room_ids);
        let (cellar_entrances, item_cellar_entrances) = cellar_entrances_of(self.buffer.as_slice(), block_base, &info.cellar_rooms);
        let cellar_rooms = used_cellar_slots(&info.cellar_rooms);
        let lvl = DungeonLevel {
            dungeon,
            start_room: info.start_room,
            rooms,
            map_mask: [0; 16],
            map_rotation: 0,
            cellar_entrances,
            item_cellar_entrances,
            cellar_rooms,
            triforce_room: info.triforce_room,
        };
        assert(lvl.map_mask@ =~= Seq::new(16, |i: int| 0u8));
        lvl
    }

    /// Read all nine dungeons.
    pub fn read_dungeon_data(&self) -> (d: DungeonLevels)
        ensures
            forall|i: int| 0 <= i < 9 ==> dungeon_level_of(self@, (i + 1) as u8, #[trigger] d.levels@[i]),
    {
        let d = DungeonLevels {
            levels: [
                self.read_dungeon(1),
                self.read_dungeon(2),
                self.read_dungeon(3),
                self.read_dungeon(4),
                self.read_dungeon(5),
                self.read_dungeon(6),
                self.read_dungeon(7),
                self.read_dungeon(8),
                self.read_dungeon(9),
            ],
        };
        d
    }
}

// ---------------------------------------------------------------------------
// Reading the shops.
// ---------------------------------------------------------------------------

/// Item code of a key.
pub const KEY_ITEM_ID: u8 = 0x19;

/// The ROM offsets of the items of the fifteen shop slots: potion, arrow, candle, shield
/// and ring shops, each left, middle, right.
pub open spec fn shop_item_offsets() -> Seq<usize> {
    seq![
        SHOP_POTION_LEFT, SHOP_POTION_MIDDLE, SHOP_POTION_RIGHT,
        SHOP_ARROW_LEFT, SHOP_ARROW_MIDDLE, SHOP_ARROW_RIGHT,
        SHOP_CANDLE_LEFT, SHOP_CANDLE_MIDDLE, SHOP_CANDLE_RIGHT,
        SHOP_SHIELD_LEFT, SHOP_SHIELD_MIDDLE, SHOP_SHIELD_RIGHT,
        SHOP_RING_LEFT, SHOP_RING_MIDDLE, SHOP_RING_RIGHT,
    ]
}

/// The ROM offsets of the prices of the fifteen shop slots, in the same order.
pub open spec fn shop_price_offsets() -> Seq<usize> {
    seq![
        PRICE_POTION_LEFT, PRICE_POTION_MIDDLE, PRICE_POTION_RIGHT,
        PRICE_ARROW_LEFT, PRICE_ARROW_MIDDLE, PRICE_ARROW_RIGHT,
        PRICE_CANDLE_LEFT, PRICE_CANDLE_MIDDLE, PRICE_CANDLE_RIGHT,
        PRICE_SHIELD_LEFT, PRICE_SHIELD_MIDDLE, PRICE_SHIELD_RIGHT,
        PRICE_RING_LEFT, PRICE_RING_MIDDLE, PRICE_RING_RIGHT,
    ]
}

/// Shop slot `i` (of the fifteen) sells a key: the low five bits of its item byte
/// (0 past the buffer) are the key's code.
pub open spec fn sells_key(buf: Seq<u8>, i: int) -> bool {
    byte_or(buf, shop_item_offsets()[i] as int, 0) & 0x1Fu8 == KEY_ITEM_ID
}

/// The key-selling slots among the first `n` shop slots, in slot order, with shop index
/// `i / 3`, slot `i % 3` and the price byte (0 past the buffer).
pub open spec fn shop_keys_upto(buf: Seq<u8>, n: nat) -> Seq<Shop>
    decreases n,
{
    if n == 0 {
        seq![]
    } else {
        let i = n - 1;
        let rest = shop_keys_upto(buf, (n - 1) as nat);
        if sells_key(buf, i) {
            rest.push(
                Shop { shop_index: (i / 3) as u8, slot: (i % 3) as u8, price: byte_or(buf, shop_price_offsets()[i] as int, 0) },
            )
        } else {
            rest
        }
    }
}

impl Game {
    /// The shop slots that sell a key, in slot order.
    pub fn read_shop_keys(&self) -> (keys: Vec<Shop>)
        ensures
            keys@ == shop_keys_upto(self@, 15),
    {
        let item_offsets: Vec<usize> = vec![
            SHOP_POTION_LEFT, SHOP_POTION_MIDDLE, SHOP_POTION_RIGHT,
            SHOP_ARROW_LEFT, SHOP_ARROW_MIDDLE, SHOP_ARROW_RIGHT,
            SHOP_CANDLE_LEFT, SHOP_CANDLE_MIDDLE, SHOP_CANDLE_RIGHT,
            SHOP_SHIELD_LEFT, SHOP_SHIELD_MIDDLE, SHOP_SHIELD_RIGHT,
            SHOP_RING_LEFT, SHOP_RING_MIDDLE, SHOP_RING_RIGHT,
        ];
        let price_offsets: Vec<usize> = vec![
            PRICE_POTION_LEFT, PRICE_POTION_MIDDLE, PRICE_POTION_RIGHT,
            PRICE_ARROW_LEFT, PRICE_ARROW_MIDDLE, PRICE_ARROW_RIGHT,
            PRICE_CANDLE_LEFT, PRICE_CANDLE_MIDDLE, PRICE_CANDLE_RIGHT,
            PRICE_SHIELD_LEFT, PRICE_SHIELD_MIDDLE, PRICE_SHIELD_RIGHT,
            PRICE_RING_LEFT, PRICE_RING_MIDDLE, PRICE_RING_RIGHT,
        ];
        assert(item_offsets@ =~= shop_item_offsets());
        assert(price_offsets@ =~= shop_price_offsets());
        let mut keys: Vec<Shop> = Vec::new();
        let mut i: usize = 0;
        while i < 15
            invariant
                i <= 15,
                item_offsets@ == shop_item_offsets(),
                price_offsets@ == shop_price_offsets(),
                keys@ == shop_keys_upto(self@, i as nat),
            decreases 15 - i,
        {
            let item_id = byte_at_or(self.buffer.as_slice(), item_offsets[i], 0) & 0x1F;
            if item_id == KEY_ITEM_ID {
                let price = byte_at_or(self.buffer.as_slice(), price_offsets[i], 0);
                keys.push(Shop { shop_index: (i / 3) as u8, slot: (i % 3) as u8, price });
            }
            i = i + 1;
        }
        keys
    }

    /// The spoiler log of the image: the caves, then the dungeons.
    pub fn spoiler_log(&self) -> (s: String)
        ensures
            exists|c: CaveLevels, d: DungeonLevels|
                c.shop_keys@ == shop_keys_upto(self@, 15) && (forall|i: int|
                    0 <= i < 9 ==> dungeon_level_of(self@, (i + 1) as u8, #[trigger] d.levels@[i])) && s@ == cave_text(&c)
                    + levels_text(d.levels@, 9) + "\n"@,
    {
        let cave_data = self.read_cave_data();
        let dungeon_data = self.read_dungeon_data();
        let mut s = cave_data.to_string();
        let dungeon_text = dungeon_data.to_string();
        s.append(dungeon_text.as_str());
        assert(s@ =~= cave_text(&cave_data) + levels_text(dungeon_data.levels@, 9) + "\n"@);
        assert(cave_data.shop_keys@ == shop_keys_upto(self@, 15) && (forall|i: int|
            0 <= i < 9 ==> dungeon_level_of(self@, (i + 1) as u8, #[trigger] dungeon_data.levels@[i])) && s@ == cave_text(
            &cave_data,
        ) + levels_text(dungeon_data.levels@, 9) + "\n"@);
        s
    }

    /// Read what the spoiler log shows of the caves.
    pub fn read_cave_data(&self) -> (c: CaveLevels)
        ensures
            c.shop_keys@ == shop_keys_upto(self@, 15),
    {
        CaveLevels { shop_keys: self.read_shop_keys() }
    }
}

// ---------------------------------------------------------------------------
// Laws of the settings.
// ---------------------------------------------------------------------------

/// Writing the starting inventory keeps the image's length and every byte outside the
/// starting-inventory block.
pub proof fn lemma_inventory_stays_in_block(old: Seq<u8>, o: StartInventoryOptions, j: int)
    requires
        0 <= j < old.len(),
        !(STARTING_INVENTORY_DATA <= j < STARTING_INVENTORY_DATA + INVENTORY_BLOCK_LEN),
    ensures
        inventory_applied(old, o).len() == old.len(),
        inventory_applied(old, o)[j] == old[j],
{
}

/// Writing the same starting inventory twice is writing it once.
pub proof fn lemma_inventory_idempotent(old: Seq<u8>, o: StartInventoryOptions)
    ensures
        inventory_applied(inventory_applied(old, o), o) == inventory_applied(old, o),
{
    assert(inventory_applied(inventory_applied(old, o), o) =~= inventory_applied(old, o));
}

/// The starting inventory and the starting progression use different bytes of the block,
/// so writing them in either order gives the same image.
pub proof fn lemma_inventory_progression_commute(
    old: Seq<u8>,
    io: StartInventoryOptions,
    po: ProgressionOptions,
    p_then_i: Seq<u8>,
    after_p: Seq<u8>,
    after_i: Seq<u8>,
    i_then_p: Seq<u8>,
)
    requires
        old.len() >= STARTING_INVENTORY_DATA + INVENTORY_BLOCK_LEN,
        progression_written(old, after_p, po),
        p_then_i == inventory_applied(after_p, io),
        after_i == inventory_applied(old, io),
        progression_written(after_i, i_then_p, po),
    ensures
        p_then_i == i_then_p,
{
    let off = STARTING_INVENTORY_DATA as int;
    assert forall|j: int| 0 <= j < old.len() implies p_then_i[j] == i_then_p[j] by {
        let written_p = j == off + 0x10 || j == off + 0x11 || j == off + 0x12 || j == off + 0x13 || j == off + 0x1A
            || j == off + 0x1B;
        if written_p {
            assert(inventory_byte(io, j - off) is None);
            assert forall|k: u8| k < 8 implies (bit_set(p_then_i[j], k) <==> bit_set(i_then_p[j], k)) by {}
            let x = p_then_i[j];
            let y = i_then_p[j];
            assert(forall|k: u8| k < 8 ==> (bit_set(x, k) <==> bit_set(y, k)));
            lemma_bits_determine(x, y);
        }
    }
    assert(p_then_i =~= i_then_p);
}

/// Two bytes with the same eight bits are equal.
proof fn lemma_bits_determine(x: u8, y: u8)
    requires
        forall|k: u8| k < 8 ==> (bit_set(x, k) <==> bit_set(y, k)),
    ensures
        x == y,
{
    assert(bit_set(x, 0) <==> bit_set(y, 0));
    assert(bit_set(x, 1) <==> bit_set(y, 1));
    assert(bit_set(x, 2) <==> bit_set(y, 2));
    assert(bit_set(x, 3) <==> bit_set(y, 3));
    assert(bit_set(x, 4) <==> bit_set(y, 4));
    assert(bit_set(x, 5) <==> bit_set(y, 5));
    assert(bit_set(x, 6) <==> bit_set(y, 6));
    assert(bit_set(x, 7) <==> bit_set(y, 7));
    assert(x == y) by (bit_vector)
        requires
            ((x >> 0u8) & 1u8 == 1u8) == ((y >> 0u8) & 1u8 == 1u8),
            ((x >> 1u8) & 1u8 == 1u8) == ((y >> 1u8) & 1u8 == 1u8),
            ((x >> 2u8) & 1u8 == 1u8) == ((y >> 2u8) & 1u8 == 1u8),
            ((x >> 3u8) & 1u8 == 1u8) == ((y >> 3u8) & 1u8 == 1u8),
            ((x >> 4u8) & 1u8 == 1u8) == ((y >> 4u8) & 1u8 == 1u8),
            ((x >> 5u8) & 1u8 == 1u8) == ((y >> 5u8) & 1u8 == 1u8),
            ((x >> 6u8) & 1u8 == 1u8) == ((y >> 6u8) & 1u8 == 1u8),
            ((x >> 7u8) & 1u8 == 1u8) == ((y >> 7u8) & 1u8 == 1u8),
    ;
}

} // verus!
