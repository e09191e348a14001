use vstd::prelude::*;

verus! {

// ROM file offsets (iNES header included) of the data this library reads and writes.

/// NES: $02 $B88A
pub const STARTING_INVENTORY_DATA: usize = 0xB89A;
/// NES: $06 $841B
pub const FIRST_QUEST_DUNGEON_DATA_EARLY: usize = 0x1842B;
/// NES: $06 $871B
pub const FIRST_QUEST_DUNGEON_DATA_LATE: usize = 0x1872B;
/// NES: $06 $8000
pub const LEVEL_ADDRESSES: usize = 0x18010;
/// NES: $06 $837E
pub const PRICE_ARROW_LEFT: usize = 0x1838E;
/// NES: $06 $837F
pub const PRICE_ARROW_MIDDLE: usize = 0x1838F;
/// NES: $06 $8380
pub const PRICE_ARROW_RIGHT: usize = 0x18390;
/// NES: $06 $8381
pub const PRICE_CANDLE_LEFT: usize = 0x18391;
/// NES: $06 $8382
pub const PRICE_CANDLE_MIDDLE: usize = 0x18392;
/// NES: $06 $8383
pub const PRICE_CANDLE_RIGHT: usize = 0x18393;
/// NES: $06 $8375
pub const PRICE_POTION_LEFT: usize = 0x18385;
/// NES: $06 $8376
pub const PRICE_POTION_MIDDLE: usize = 0x18386;
/// NES: $06 $8377
pub const PRICE_POTION_RIGHT: usize = 0x18387;
/// NES: $06 $8387
pub const PRICE_RING_LEFT: usize = 0x18397;
/// NES: $06 $8388
pub const PRICE_RING_MIDDLE: usize = 0x18398;
/// NES: $06 $8389
pub const PRICE_RING_RIGHT: usize = 0x18399;
/// NES: $06 $8384
pub const PRICE_SHIELD_LEFT: usize = 0x18394;
/// NES: $06 $8385
pub const PRICE_SHIELD_MIDDLE: usize = 0x18395;
/// NES: $06 $8386
pub const PRICE_SHIELD_RIGHT: usize = 0x18396;
/// NES: $06 $8342
pub const SHOP_ARROW_LEFT: usize = 0x18352;
/// NES: $06 $8343
pub const SHOP_ARROW_MIDDLE: usize = 0x18353;
/// NES: $06 $8344
pub const SHOP_ARROW_RIGHT: usize = 0x18354;
/// NES: $06 $8345
pub const SHOP_CANDLE_LEFT: usize = 0x18355;
/// NES: $06 $8346
pub const SHOP_CANDLE_MIDDLE: usize = 0x18356;
/// NES: $06 $8347
pub const SHOP_CANDLE_RIGHT: usize = 0x18357;
/// NES: $06 $8339
pub const SHOP_POTION_LEFT: usize = 0x18349;
/// NES: $06 $833A
pub const SHOP_POTION_MIDDLE: usize = 0x1834A;
/// NES: $06 $833B
pub const SHOP_POTION_RIGHT: usize = 0x1834B;
/// NES: $06 $834B
pub const SHOP_RING_LEFT: usize = 0x1835B;
/// NES: $06 $834C
pub const SHOP_RING_MIDDLE: usize = 0x1835C;
/// NES: $06 $834D
pub const SHOP_RING_RIGHT: usize = 0x1835D;
/// NES: $06 $8348
pub const SHOP_SHIELD_LEFT: usize = 0x18358;
/// NES: $06 $8349
pub const SHOP_SHIELD_MIDDLE: usize = 0x18359;
/// NES: $06 $834A
pub const SHOP_SHIELD_RIGHT: usize = 0x1835A;

} // verus!
