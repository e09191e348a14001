use std::collections::HashMap;
use zdu_lib::game::Game;
use zdu_lib::options::StartInventoryOptions;
use zdu_lib::ui::host_view::{inventory_rows, mask_bit, progression_masks};
use zdu_lib::ui::labels::{
    arrow_label, arrow_level, boomerang_label, boomerang_level, shield_label, shield_level, str_eq, sword_label,
    sword_level, tier_label, tier_level,
};
use zdu_lib::ui::parse::{parse_u16, parse_u8};

#[test]
fn parse_like_from_str() {
    assert_eq!(parse_u8("42"), Some(42));
    assert_eq!(parse_u8("+42"), Some(42));
    assert_eq!(parse_u8("007"), Some(7));
    assert_eq!(parse_u8("255"), Some(255));
    assert_eq!(parse_u8("256"), None);
    assert_eq!(parse_u8(""), None);
    assert_eq!(parse_u8("+"), None);
    assert_eq!(parse_u8("-1"), None);
    assert_eq!(parse_u8(" 1"), None);
    assert_eq!(parse_u8("1a"), None);
    assert_eq!(parse_u16("65535"), Some(65535));
    assert_eq!(parse_u16("65536"), None);
    assert_eq!(parse_u16("42069"), Some(42069));
}

#[test]
fn parse_agrees_with_std() {
    for s in ["0", "12", "+7", "00000000000000000000099", "99999", "-0", "++1", "x", "", "300", "65535"] {
        assert_eq!(parse_u8(s), s.parse::<u8>().ok(), "{}", s);
        assert_eq!(parse_u16(s), s.parse::<u16>().ok(), "{}", s);
    }
}

#[test]
fn picker_labels() {
    assert_eq!(arrow_label(0), "None");
    assert_eq!(arrow_label(1), "Wood");
    assert_eq!(arrow_label(2), "Silver");
    assert_eq!(arrow_label(9), "None");
    assert_eq!(boomerang_label(2), "Magical");
    assert_eq!(tier_label(1), "Blue");
    assert_eq!(tier_label(2), "Red");
    assert_eq!(shield_label(0), "Small Shield");
    assert_eq!(shield_label(1), "Magical Shield");
    assert_eq!(sword_label(3), "Magical");
    assert_eq!(sword_label(7), "Fairy");
    assert_eq!(sword_label(4), "None");
}

#[test]
fn picker_levels() {
    assert_eq!(arrow_level("Silver"), 2);
    assert_eq!(arrow_level("Gold"), 0);
    assert_eq!(boomerang_level("Wood"), 1);
    assert_eq!(tier_level("Red"), 2);
    assert_eq!(shield_level("Magical Shield"), 1);
    assert_eq!(shield_level("Small Shield"), 0);
    assert_eq!(sword_level("Fairy"), 7);
    assert_eq!(sword_level("White"), 2);
    assert_eq!(sword_level("wood"), 0);
}

#[test]
fn picker_roundtrip_law() {
    for level in [0u8, 1, 2] {
        assert_eq!(arrow_level(arrow_label(level)), level);
        assert_eq!(boomerang_level(boomerang_label(level)), level);
        assert_eq!(tier_level(tier_label(level)), level);
    }
    for level in [0u8, 1] {
        assert_eq!(shield_level(shield_label(level)), level);
    }
    for level in [0u8, 1, 2, 3, 7] {
        assert_eq!(sword_level(sword_label(level)), level);
    }
}

#[test]
fn string_equality() {
    assert!(str_eq("Wood", "Wood"));
    assert!(!str_eq("Wood", "Woods"));
    assert!(!str_eq("Wood", "wood"));
    assert!(str_eq("", ""));
}

fn row<'a>(rows: &'a [(&'static str, String)], label: &str) -> &'a str {
    rows.iter().find(|r| r.0 == label).map(|r| r.1.as_str()).unwrap()
}

#[test]
fn empty_inventory_table() {
    let rows = inventory_rows(&HashMap::new());
    assert_eq!(rows.len(), 22);
    assert_eq!(rows[0].0, "Arrow:");
    assert_eq!(rows[21].0, "Sword:");
    assert_eq!(row(&rows, "Arrow:"), "None");
    assert_eq!(row(&rows, "Bombs (Max):"), "0");
    assert_eq!(row(&rows, "Heart Containers:"), "1");
    assert_eq!(row(&rows, "Shield:"), "Small Shield");
    assert_eq!(row(&rows, "Sword:"), "None");
    assert_eq!(row(&rows, "Bow:"), "No");
}

#[test]
fn inventory_table_values() {
    let mut items = HashMap::new();
    items.insert(0x18u16, 0x22u8);
    items.insert(0x1E, 1);
    items.insert(0x1D, 1);
    items.insert(0x16, 200);
    items.insert(0x03, 1);
    items.insert(0x0B, 2);
    let rows = inventory_rows(&items);
    assert_eq!(row(&rows, "Heart Containers:"), "3");
    assert_eq!(row(&rows, "Boomerang:"), "Magical");
    assert_eq!(row(&rows, "Rupees:"), "200");
    assert_eq!(row(&rows, "Bow:"), "Yes");
    assert_eq!(row(&rows, "Ring:"), "Red");
}

#[test]
fn progression_mask_values() {
    let mut items = HashMap::new();
    items.insert(0x10u16, 0x05u8);
    items.insert(0x12, 0x01);
    items.insert(0x1B, 0x80);
    items.insert(0x1A, 0x03);
    let masks = progression_masks(&items);
    assert_eq!(masks, [0x80, 0x105, 0, 3]);
    assert!(mask_bit(masks[1], 0));
    assert!(!mask_bit(masks[1], 1));
    assert!(mask_bit(masks[1], 2));
    assert!(mask_bit(masks[1], 8));
    assert!(!mask_bit(masks[2], 8));
}

fn block_map(game: &Game) -> HashMap<u16, u8> {
    let mut items = HashMap::new();
    for k in 0..0x26u16 {
        items.insert(k, game.buffer()[0xB89A + k as usize]);
    }
    items
}

#[test]
fn host_shows_inventory_law() {
    let mut game = Game::from_buffer("base.nes".to_string(), vec![0u8; 0x20000]);
    let mut inv = StartInventoryOptions::default();
    inv.start_sword = 2;
    inv.start_arrow = 1;
    inv.start_magic_shield = 1;
    inv.start_candle = 2;
    inv.start_bombs = 5;
    inv.max_bombs = 12;
    inv.heart_containers = 6;
    inv.start_rupees = 99;
    inv.start_raft = true;
    game.set_starting_inventory(&inv);
    let rows = inventory_rows(&block_map(&game));
    assert_eq!(row(&rows, "Sword:"), "White");
    assert_eq!(row(&rows, "Arrow:"), "Wood");
    assert_eq!(row(&rows, "Shield:"), "Magical Shield");
    assert_eq!(row(&rows, "Candle:"), "Red");
    assert_eq!(row(&rows, "Bombs (Start):"), "5");
    assert_eq!(row(&rows, "Bombs (Max):"), "12");
    assert_eq!(row(&rows, "Heart Containers:"), "6");
    assert_eq!(row(&rows, "Rupees:"), "99");
    assert_eq!(row(&rows, "Raft:"), "Yes");
    assert_eq!(row(&rows, "Ladder:"), "No");
}
