use vstd::prelude::*;
use std::collections::HashMap;
use crate::text::{decimal, push_decimal};
use crate::game::{
    INVENTORY_BLOCK_LEN, bit_set, flag, heart_nibble, inventory_applied, inventory_byte, progression_written,
};
use crate::locations::STARTING_INVENTORY_DATA;
use crate::options::{ProgressionOptions, StartInventoryOptions};
use crate::ui::labels::boomerang_name;
use crate::ui::labels::{
    arrow_label, arrow_name, shield_label, shield_name, sword_label, sword_name, tier_label, tier_name,
};

verus! {

broadcast use vstd::std_specs::hash::group_hash_axioms;

/// The value at an inventory offset; 0 where none is stored.
pub open spec fn item_value(m: Map<u16, u8>, k: u16) -> u8 {
    if m.contains_key(k) {
        m[k]
    } else {
        0
    }
}

/// "Yes" or "No".
pub open spec fn yes_no(b: bool) -> Seq<char> {
    if b {
        "Yes"@
    } else {
        "No"@
    }
}

/// The boomerang the inventory holds: the magical one (offset $1E) before the wooden one ($1D).
pub open spec fn boomerang_shown(m: Map<u16, u8>) -> Seq<char> {
    if item_value(m, 0x1E) > 0 {
        "Magical"@
    } else if item_value(m, 0x1D) > 0 {
        "Wood"@
    } else {
        "None"@
    }
}

/// The inventory table of the host page: a label and a value for each item, in
/// alphabetical order.
pub open spec fn host_rows(m: Map<u16, u8>) -> Seq<(Seq<char>, Seq<char>)> {
    let v = |k: u16| item_value(m, k);
    seq![
        ("Arrow:"@, arrow_name(v(0x02))),
        ("Bombs (Max):"@, decimal(v(0x25) as nat)),
        ("Bombs (Start):"@, decimal(v(0x01) as nat)),
        ("Book of Magic:"@, yes_no(v(0x0A) > 0)),
        ("Boomerang:"@, boomerang_shown(m)),
        ("Bow:"@, yes_no(v(0x03) > 0)),
        ("Candle:"@, tier_name(v(0x04))),
        ("Food:"@, yes_no(v(0x06) > 0)),
        ("Heart Containers:"@, decimal(((v(0x18) & 0x0Fu8) + 1) as nat)),
        ("Keys:"@, decimal(v(0x17) as nat)),
        ("Ladder:"@, yes_no(v(0x0C) > 0)),
        ("Letter:"@, yes_no(v(0x0F) > 0)),
        ("Magic Key:"@, yes_no(v(0x0D) > 0)),
        ("Magic Rod:"@, yes_no(v(0x08) > 0)),
        ("Potion:"@, tier_name(v(0x07))),
        ("Power Bracelet:"@, yes_no(v(0x0E) > 0)),
        ("Raft:"@, yes_no(v(0x09) > 0)),
        ("Recorder:"@, yes_no(v(0x05) > 0)),
        ("Ring:"@, tier_name(v(0x0B))),
        ("Rupees:"@, decimal(v(0x16) as nat)),
        ("Shield:"@, shield_name(v(0x1F))),
        ("Sword:"@, sword_name(v(0x00))),
    ]
}

/// The texts of a table of rows.
pub open spec fn rows_view(rows: Seq<(&'static str, String)>) -> Seq<(Seq<char>, Seq<char>)> {
    rows.map_values(|r: (&'static str, String)| (r.0@, r.1@))
}

fn value_at(items: &HashMap<u16, u8>, k: u16) -> (v: u8)
    ensures
        v == item_value(items@, k),
{
    match items.get(&k) {
        Some(v) => *v,
        None => 0,
    }
}

fn yes_no_text(b: bool) -> (s: String)
    ensures
        s@ == yes_no(b),
{
    if b {
        String::from_str("Yes")
    } else {
        String::from_str("No")
    }
}

fn number_text(n: u8) -> (s: String)
    ensures
        s@ == decimal(n as nat),
{
    let mut s = String::new();
    push_decimal(&mut s, n as u64);
    assert(s@ =~= decimal(n as nat));
    s
}

/// The inventory table of the host page, from the shared item values.
pub fn inventory_rows(items: &HashMap<u16, u8>) -> (rows: Vec<(&'static str, String)>)
    ensures
        rows_view(rows@) == host_rows(items@),
{
    let v = |k: u16| -> (r: u8)
        ensures
            r == item_value(items@, k),
        { value_at(items, k) };
    let boomerang = if v(0x1E) > 0 {
        String::from_str("Magical")
    } else if v(0x1D) > 0 {
        String::from_str("Wood")
    } else {
        String::from_str("None")
    };
    let hv = v(0x18);
    assert(hv & 0x0Fu8 <= 15) by (bit_vector);
    let hearts = (hv & 0x0F) + 1;
    let rows: Vec<(&'static str, String)> = vec![
        ("Arrow:", String::from_str(arrow_label(v(0x02)))),
        ("Bombs (Max):", number_text(v(0x25))),
        ("Bombs (Start):", number_text(v(0x01))),
        ("Book of Magic:", yes_no_text(v(0x0A) > 0)),
        ("Boomerang:", boomerang),
        ("Bow:", yes_no_text(v(0x03) > 0)),
        ("Candle:", String::from_str(tier_label(v(0x04)))),
        ("Food:", yes_no_text(v(0x06) > 0)),
        ("Heart Containers:", number_text(hearts)),
        ("Keys:", number_text(v(0x17))),
        ("Ladder:", yes_no_text(v(0x0C) > 0)),
        ("Letter:", yes_no_text(v(0x0F) > 0)),
        ("Magic Key:", yes_no_text(v(0x0D) > 0)),
        ("Magic Rod:", yes_no_text(v(0x08) > 0)),
        ("Potion:", String::from_str(tier_label(v(0x07)))),
        ("Power Bracelet:", yes_no_text(v(0x0E) > 0)),
        ("Raft:", yes_no_text(v(0x09) > 0)),
        ("Recorder:", yes_no_text(v(0x05) > 0)),
        ("Ring:", String::from_str(tier_label(v(0x0B)))),
        ("Rupees:", number_text(v(0x16))),
        ("Shield:", String::from_str(shield_label(v(0x1F)))),
        ("Sword:", String::from_str(sword_label(v(0x00)))),
    ];
    assert(rows_view(rows@) =~= host_rows(items@));
    rows
}

/// The compass mask: bits 0-7 from offset $10, bit 8 from offset $12.
pub open spec fn compass_mask(m: Map<u16, u8>) -> u16 {
    (item_value(m, 0x10) as u16) | ((item_value(m, 0x12) as u16) << 8u16)
}

/// The map mask: bits 0-7 from offset $11, bit 8 from offset $13.
pub open spec fn map_mask(m: Map<u16, u8>) -> u16 {
    (item_value(m, 0x11) as u16) | ((item_value(m, 0x13) as u16) << 8u16)
}

/// Dungeon `i` (0-based) is checked in a progression mask.
pub open spec fn mask_has(mask: u16, i: u16) -> bool {
    mask & (1u16 << i) != 0
}

/// The progression masks of the host page: bosses (offset $1B), compasses, maps and
/// triforce pieces (offset $1A), in that order.
pub fn progression_masks(items: &HashMap<u16, u8>) -> (masks: [u16; 4])
    ensures
        masks@ == seq![
            item_value(items@, 0x1B) as u16,
            compass_mask(items@),
            map_mask(items@),
            item_value(items@, 0x1A) as u16,
        ],
{
    let compass = (value_at(items, 0x10) as u16) | ((value_at(items, 0x12) as u16) << 8);
    let map = (value_at(items, 0x11) as u16) | ((value_at(items, 0x13) as u16) << 8);
    let masks = [value_at(items, 0x1B) as u16, compass, map, value_at(items, 0x1A) as u16];
    assert(masks@ =~= seq![
        item_value(items@, 0x1B) as u16,
        compass_mask(items@),
        map_mask(items@),
        item_value(items@, 0x1A) as u16,
    ]);
    masks
}

/// Whether dungeon `i` (0-8) is checked in a progression mask.
pub fn mask_bit(mask: u16, i: u16) -> (b: bool)
    requires
        i < 16,
    ensures
        b == mask_has(mask, i),
{
    mask & (1u16 << i) != 0
}

/// The item values a client reports for a game image: the bytes of its
/// starting-inventory block, by offset.
pub open spec fn block_items(img: Seq<u8>) -> Map<u16, u8> {
    Map::new(|k: u16| k < INVENTORY_BLOCK_LEN, |k: u16| img[STARTING_INVENTORY_DATA + k])
}

/// The inventory table that starting-inventory options call for: the labels the
/// pickers show for them, the counts, and the heart containers as stored.
pub open spec fn expected_rows(o: StartInventoryOptions) -> Seq<(Seq<char>, Seq<char>)> {
    seq![
        ("Arrow:"@, arrow_name(o.start_arrow)),
        ("Bombs (Max):"@, decimal(o.max_bombs as nat)),
        ("Bombs (Start):"@, decimal(o.start_bombs as nat)),
        ("Book of Magic:"@, yes_no(o.start_book)),
        ("Boomerang:"@, boomerang_name(o.start_boomerang)),
        ("Bow:"@, yes_no(o.start_bow)),
        ("Candle:"@, tier_name(o.start_candle)),
        ("Food:"@, yes_no(o.start_food)),
        ("Heart Containers:"@, decimal((heart_nibble(o.heart_containers) + 1) as nat)),
        ("Keys:"@, decimal(o.start_keys as nat)),
        ("Ladder:"@, yes_no(o.start_ladder)),
        ("Letter:"@, yes_no(o.start_letter)),
        ("Magic Key:"@, yes_no(o.start_magic_key)),
        ("Magic Rod:"@, yes_no(o.start_magic_rod)),
        ("Potion:"@, tier_name(o.start_potion)),
        ("Power Bracelet:"@, yes_no(o.start_bracelet)),
        ("Raft:"@, yes_no(o.start_raft)),
        ("Recorder:"@, yes_no(o.start_recorder)),
        ("Ring:"@, tier_name(o.start_ring)),
        ("Rupees:"@, decimal(o.start_rupees as nat)),
        ("Shield:"@, shield_name(o.start_magic_shield)),
        ("Sword:"@, sword_name(o.start_sword)),
    ]
}

/// The item value at offset `k` of an image with the starting inventory written is the
/// byte the options put there.
proof fn lemma_block_value(old: Seq<u8>, o: StartInventoryOptions, k: u16)
    requires
        old.len() >= STARTING_INVENTORY_DATA + INVENTORY_BLOCK_LEN,
        k < INVENTORY_BLOCK_LEN,
        inventory_byte(o, k as int) is Some,
    ensures
        item_value(block_items(inventory_applied(old, o)), k) == inventory_byte(o, k as int)->0,
{
    let img = inventory_applied(old, o);
    assert(block_items(img).contains_key(k));
    assert(img[STARTING_INVENTORY_DATA + k] == inventory_byte(o, k as int)->0);
}

/// The host page shows the starting inventory that was written into a game image: each
/// picker label, count and flag reads back as set, the heart containers as stored.
pub proof fn lemma_host_shows_inventory(old: Seq<u8>, o: StartInventoryOptions)
    requires
        old.len() >= STARTING_INVENTORY_DATA + INVENTORY_BLOCK_LEN,
    ensures
        host_rows(block_items(inventory_applied(old, o))) == expected_rows(o),
{
    let img = inventory_applied(old, o);
    let m = block_items(img);
    lemma_block_value(old, o, 0x02);
    lemma_block_value(old, o, 0x25);
    lemma_block_value(old, o, 0x01);
    lemma_block_value(old, o, 0x0A);
    lemma_block_value(old, o, 0x03);
    lemma_block_value(old, o, 0x04);
    lemma_block_value(old, o, 0x06);
    lemma_block_value(old, o, 0x17);
    lemma_block_value(old, o, 0x0C);
    lemma_block_value(old, o, 0x0F);
    lemma_block_value(old, o, 0x0D);
    lemma_block_value(old, o, 0x08);
    lemma_block_value(old, o, 0x07);
    lemma_block_value(old, o, 0x0E);
    lemma_block_value(old, o, 0x09);
    lemma_block_value(old, o, 0x05);
    lemma_block_value(old, o, 0x0B);
    lemma_block_value(old, o, 0x16);
    lemma_block_value(old, o, 0x1F);
    lemma_block_value(old, o, 0x00);
    lemma_block_value(old, o, 0x18);
    lemma_block_value(old, o, 0x1D);
    lemma_block_value(old, o, 0x1E);
    let hn = heart_nibble(o.heart_containers);
    assert(0 <= hn <= 15);
    let hb = (hn * 16 + hn) as u8;
    assert(item_value(m, 0x18) == hb);
    assert(hb as int == hn * 17);
    assert(hb & 0x0Fu8 == hb % 16) by (bit_vector);
    assert((hn * 17) % 16 == hn);
    assert(item_value(m, 0x1D) == flag(o.start_boomerang == 1));
    assert(item_value(m, 0x1E) == flag(o.start_boomerang == 2));
    assert(boomerang_shown(m) == boomerang_name(o.start_boomerang));
    assert(host_rows(m) =~= expected_rows(o));
}

/// The host page shows the starting progression that was written into a game image:
/// compasses and maps of all nine dungeons, and triforce pieces and defeated bosses of
/// dungeons 1-8 (the ninth of these two is not stored).
pub proof fn lemma_host_shows_progression(old: Seq<u8>, new: Seq<u8>, o: ProgressionOptions, i: u16)
    requires
        old.len() >= STARTING_INVENTORY_DATA + INVENTORY_BLOCK_LEN,
        progression_written(old, new, o),
        i < 9,
    ensures
        mask_has(compass_mask(block_items(new)), i) == o.compasses@[i as int],
        mask_has(map_mask(block_items(new)), i) == o.maps@[i as int],
        i < 8 ==> mask_has(item_value(block_items(new), 0x1A) as u16, i) == o.triforce_pieces@[i as int],
        i < 8 ==> mask_has(item_value(block_items(new), 0x1B) as u16, i) == o.bosses_defeated@[i as int],
{
    let m = block_items(new);
    let off = STARTING_INVENTORY_DATA as int;
    assert(m.contains_key(0x10u16) && m.contains_key(0x11u16) && m.contains_key(0x12u16) && m.contains_key(0x13u16));
    assert(m.contains_key(0x1Au16) && m.contains_key(0x1Bu16));
    let c0 = new[off + 0x10];
    let c1 = new[off + 0x12];
    let m0 = new[off + 0x11];
    let m1 = new[off + 0x13];
    let t = new[off + 0x1A];
    let b = new[off + 0x1B];
    assert(item_value(m, 0x10) == c0 && item_value(m, 0x12) == c1);
    assert(item_value(m, 0x11) == m0 && item_value(m, 0x13) == m1);
    assert(item_value(m, 0x1A) == t && item_value(m, 0x1B) == b);
    if i < 8 {
        let k = i as u8;
        assert(bit_set(c0, k) == o.compasses@[i as int]);
        assert(bit_set(m0, k) == o.maps@[i as int]);
        assert(bit_set(t, k) == o.triforce_pieces@[i as int]);
        assert(bit_set(b, k) == o.bosses_defeated@[i as int]);
        assert(((c0 as u16) | ((c1 as u16) << 8u16)) & (1u16 << i) != 0 <==> (c0 >> k) & 1u8 == 1u8) by (bit_vector)
            requires i < 8, k == i as u8, c1 <= 1;
        assert(((m0 as u16) | ((m1 as u16) << 8u16)) & (1u16 << i) != 0 <==> (m0 >> k) & 1u8 == 1u8) by (bit_vector)
            requires i < 8, k == i as u8, m1 <= 1;
        assert((t as u16) & (1u16 << i) != 0 <==> (t >> k) & 1u8 == 1u8) by (bit_vector)
            requires i < 8, k == i as u8;
        assert((b as u16) & (1u16 << i) != 0 <==> (b >> k) & 1u8 == 1u8) by (bit_vector)
            requires i < 8, k == i as u8;
    } else {
        assert(c1 == flag(o.compasses@[8]));
        assert(m1 == flag(o.maps@[8]));
        assert(((c0 as u16) | ((c1 as u16) << 8u16)) & (1u16 << i) != 0 <==> c1 == 1) by (bit_vector)
            requires i == 8, c1 <= 1;
        assert(((m0 as u16) | ((m1 as u16) << 8u16)) & (1u16 << i) != 0 <==> m1 == 1) by (bit_vector)
            requires i == 8, m1 <= 1;
    }
}

} // verus!
