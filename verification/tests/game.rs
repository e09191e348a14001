use zdu_lib::cave::shop::Shop;
use zdu_lib::dungeon::door_kind::DoorKind;
use zdu_lib::dungeon::room_item::RoomItem;
use zdu_lib::dungeon::room_trigger::RoomTrigger;
use zdu_lib::game::{Game, GameError};
use zdu_lib::patch::patch_header_fits;
use zdu_lib::options::{ProgressionOptions, StartInventoryOptions};

const INV: usize = 0xB89A;

/// A first-quest image with one described dungeon and two key-selling shop slots.
fn image() -> Vec<u8> {
    let mut buf = vec![0u8; 0x20000];
    // LevelInfoAddrsQ1[1] = $9000 (ROM $19010).
    buf[0x18026] = 0x00;
    buf[0x18027] = 0x90;
    let base = 0x19010;
    buf[base + 0x2F] = 0x73;
    buf[base + 0x30] = 0x45;
    buf[base + 0x3E] = 0x35;
    for i in 0..10 {
        buf[base + 0x34 + i] = 0xFF;
    }
    buf[base + 0x34] = 0x7F;
    for blk in [0x1842B, 0x1872B] {
        for r in 0..128 {
            buf[blk + r] = 0x24;
            buf[blk + 0x80 + r] = 0x24;
            buf[blk + 0x200 + r] = 0x03;
            buf[blk + 0x280 + r] = 0x00;
        }
    }
    let b = 0x1842B;
    buf[b + 0x73] = 0x04;
    buf[b + 0x200 + 0x63] = 0x1A;
    buf[b + 0x280 + 0x63] = 0x03;
    buf[b + 0x200 + 0x45] = 0x1B;
    buf[b + 0x280 + 0x35] = 0x07;
    buf[b + 0x7F] = 0x63;
    buf[b + 0x80 + 0x7F] = 0xFF;
    // Arrow shop, middle slot: a key for 80 rupees.
    buf[0x18353] = 0x19;
    buf[0x1838F] = 80;
    // Ring shop, right slot: item $39 (a key in the low five bits) for 100 rupees.
    buf[0x1835D] = 0x39;
    buf[0x18399] = 100;
    buf
}

fn game() -> Game {
    Game::from_buffer(String::from("base.nes"), image())
}

const LEVEL1_TEXT: &str = "```text\n    A    B    C    D    E    F    G    H\n                                          \n1                                         \n                                          \n                                          \n2                                         \n                                          \n                                          \n3                                         \n                                          \n                           ┌───┐          \n4                          │   │          \n                           └───┘          \n                           ┌───┐          \n5                          │ ▲ │          \n                           └───┘          \n                                          \n6                                         \n                                          \n                 ┌───┐                    \n7                │ s │                    \n                 └───┘                    \n                 ┌─ ─┐                    \n8                │   │                    \n                 └─⌂─┘                    \n```\n\n| Room | Item | Trigger | N | S | E | W |\n|------|------|---------|---|---|---|---|\n| Room $35 | - | Kill-all | wall | wall | wall | wall |\n| Room $45 | Triforce | - | wall | wall | wall | wall |\n| Room $63 | Heart Container | Boss | wall | wall | wall | wall |\n| Room $7F | - | - | push-block | open | shutter | shutter |\n";

const DUNGEONS_TEXT: &str = "## Dungeon 1\n\n```text\n    A    B    C    D    E    F    G    H\n                                          \n1                                         \n                                          \n                                          \n2                                         \n                                          \n                                          \n3                                         \n                                          \n                           ┌───┐          \n4                          │   │          \n                           └───┘          \n                           ┌───┐          \n5                          │ ▲ │          \n                           └───┘          \n                                          \n6                                         \n                                          \n                 ┌───┐                    \n7                │ s │                    \n                 └───┘                    \n                 ┌─ ─┐                    \n8                │   │                    \n                 └─⌂─┘                    \n```\n\n| Room | Item | Trigger | N | S | E | W |\n|------|------|---------|---|---|---|---|\n| Room $35 | - | Kill-all | wall | wall | wall | wall |\n| Room $45 | Triforce | - | wall | wall | wall | wall |\n| Room $63 | Heart Container | Boss | wall | wall | wall | wall |\n| Room $7F | - | - | push-block | open | shutter | shutter |\n\n## Dungeon 2\n\n```text\n    A    B    C    D    E    F    G    H\n                                          \n1                                         \n                                          \n                                          \n2                                         \n                                          \n                                          \n3                                         \n                                          \n                                          \n4                                         \n                                          \n                                          \n5                                         \n                                          \n                                          \n6                                         \n                                          \n                 ┌───┐                    \n7                │ ♥ │                    \n                 └───┘                    \n                 ┌─ ─┐                    \n8                │   │                    \n                 └─⌂─┘                    \n```\n\n| Room | Item | Trigger | N | S | E | W |\n|------|------|---------|---|---|---|---|\n| Room $63 | Heart Container | Boss | wall | wall | wall | wall |\n\n## Dungeon 3\n\n```text\n    A    B    C    D    E    F    G    H\n                                          \n1                                         \n                                          \n                                          \n2                                         \n                                          \n                                          \n3                                         \n                                          \n                                          \n4                                         \n                                          \n                                          \n5                                         \n                                          \n                                          \n6                                         \n                                          \n                 ┌───┐                    \n7                │ ♥ │                    \n                 └───┘                    \n                 ┌─ ─┐                    \n8                │   │                    \n                 └─⌂─┘                    \n```\n\n| Room | Item | Trigger | N | S | E | W |\n|------|------|---------|---|---|---|---|\n| Room $63 | Heart Container | Boss | wall | wall | wall | wall |\n\n## Dungeon 4\n\n```text\n    A    B    C    D    E    F    G    H\n                                          \n1                                         \n                                          \n                                          \n2                                         \n                                          \n                                          \n3                                         \n                                          \n                                          \n4                                         \n                                          \n                                          \n5                                         \n                                          \n                                          \n6                                         \n                                          \n                 ┌───┐                    \n7                │ ♥ │                    \n                 └───┘                    \n                 ┌─ ─┐                    \n8                │   │                    \n                 └─⌂─┘                    \n```\n\n| Room | Item | Trigger | N | S | E | W |\n|------|------|---------|---|---|---|---|\n| Room $63 | Heart Container | Boss | wall | wall | wall | wall |\n\n## Dungeon 5\n\n```text\n    A    B    C    D    E    F    G    H\n                                          \n1                                         \n                                          \n                                          \n2                                         \n                                          \n                                          \n3                                         \n                                          \n                                          \n4                                         \n                                          \n                                          \n5                                         \n                                          \n                                          \n6                                         \n                                          \n                 ┌───┐                    \n7                │ ♥ │                    \n                 └───┘                    \n                 ┌─ ─┐                    \n8                │   │                    \n                 └─⌂─┘                    \n```\n\n| Room | Item | Trigger | N | S | E | W |\n|------|------|---------|---|---|---|---|\n| Room $63 | Heart Container | Boss | wall | wall | wall | wall |\n\n## Dungeon 6\n\n```text\n    A    B    C    D    E    F    G    H\n                                          \n1                                         \n                                          \n                                          \n2                                         \n                                          \n                                          \n3                                         \n                                          \n                                          \n4                                         \n                                          \n                                          \n5                                         \n                                          \n                                          \n6                                         \n                                          \n                 ┌───┐                    \n7                │ ♥ │                    \n                 └───┘                    \n                 ┌─ ─┐                    \n8                │   │                    \n                 └─⌂─┘                    \n```\n\n| Room | Item | Trigger | N | S | E | W |\n|------|------|---------|---|---|---|---|\n| Room $63 | Heart Container | Boss | wall | wall | wall | wall |\n\n## Dungeon 7\n\n```text\n    A    B    C    D    E    F    G    H\n                                          \n1                                         \n                                          \n                                          \n2                                         \n                                          \n                                          \n3                                         \n                                          \n                                          \n4                                         \n                                          \n                                          \n5                                         \n                                          \n                                          \n6                                         \n                                          \n                                          \n7                                         \n                                          \n                 ┌───┐                    \n8                │   │                    \n                 └─⌂─┘                    \n```\n\n| Room | Item | Trigger | N | S | E | W |\n|------|------|---------|---|---|---|---|\n\n## Dungeon 8\n\n```text\n    A    B    C    D    E    F    G    H\n                                          \n1                                         \n                                          \n                                          \n2                                         \n                                          \n                                          \n3                                         \n                                          \n                                          \n4                                         \n                                          \n                                          \n5                                         \n                                          \n                                          \n6                                         \n                                          \n                                          \n7                                         \n                                          \n                 ┌───┐                    \n8                │   │                    \n                 └─⌂─┘                    \n```\n\n| Room | Item | Trigger | N | S | E | W |\n|------|------|---------|---|---|---|---|\n\n## Dungeon 9\n\n```text\n    A    B    C    D    E    F    G    H\n                                          \n1                                         \n                                          \n                                          \n2                                         \n                                          \n                                          \n3                                         \n                                          \n                                          \n4                                         \n                                          \n                                          \n5                                         \n                                          \n                                          \n6                                         \n                                          \n                                          \n7                                         \n                                          \n                 ┌───┐                    \n8                │   │                    \n                 └─⌂─┘                    \n```\n\n| Room | Item | Trigger | N | S | E | W |\n|------|------|---------|---|---|---|---|\n\n\n";

const CAVE_TEXT: &str = "## Shop Keys\n\n| 1 | Middle | 80 rupees |\n| 4 | Right | 100 rupees |\n\n";

#[test]
fn from_buffer_keeps_path_and_bytes() {
    let g = Game::from_buffer(String::from("roms/zelda.nes"), vec![1, 2, 3]);
    assert_eq!(g.buffer(), &[1, 2, 3]);
    assert_eq!(g.base_rom_path(), "roms/zelda.nes");
}

#[test]
fn read_dungeon_with_level_info() {
    let g = game();
    let lvl = g.read_dungeon(1);
    assert_eq!(lvl.dungeon, 1);
    assert_eq!(lvl.start_room, 0x73);
    assert_eq!(lvl.triforce_room, 0x45);
    let ids: Vec<u8> = lvl.rooms.iter().map(|r| r.room_id).collect();
    assert_eq!(ids, vec![0x35, 0x45, 0x63, 0x6F, 0x73, 0x7F]);
    let heart = lvl.rooms[2];
    assert_eq!(heart.item, RoomItem::HeartContainer);
    assert_eq!(heart.trigger, RoomTrigger::Boss);
    assert_eq!(heart.doors.north, DoorKind::Wall);
    let cellar = lvl.rooms[5];
    assert_eq!(cellar.doors.north, DoorKind::PushBlock);
    assert_eq!(cellar.doors.south, DoorKind::Open);
    assert_eq!(cellar.doors.east, DoorKind::Shutter);
    assert_eq!(lvl.cellar_entrances, vec![0x63]);
    assert!(lvl.item_cellar_entrances.is_empty());
    assert_eq!(lvl.cellar_rooms, vec![0x7F]);
    assert_eq!(lvl.map_mask, [0u8; 16]);
    assert_eq!(lvl.map_rotation, 0);
}

#[test]
fn read_dungeon_without_level_info_starts_at_73() {
    let g = game();
    let lvl = g.read_dungeon(2);
    assert_eq!(lvl.start_room, 0x73);
    assert_eq!(lvl.triforce_room, 0xFF);
    let ids: Vec<u8> = lvl.rooms.iter().map(|r| r.room_id).collect();
    assert_eq!(ids, vec![0x63, 0x73]);
    assert!(lvl.cellar_entrances.is_empty());
    assert!(lvl.cellar_rooms.is_empty());
    let late = g.read_dungeon(7);
    let ids: Vec<u8> = late.rooms.iter().map(|r| r.room_id).collect();
    assert_eq!(ids, vec![0x73]);
}

#[test]
fn item_cellar_entrances_are_sorted_and_distinct() {
    let mut buf = image();
    let b = 0x1842B;
    let base = 0x19010;
    // Two more cellars holding an item, naming entrances out of order and twice.
    buf[base + 0x35] = 0x7E;
    buf[base + 0x36] = 0x7D;
    buf[b + 0x200 + 0x7E] = 0x16;
    buf[b + 0x7E] = 0x52;
    buf[b + 0x80 + 0x7E] = 0x91; // not a room: ignored
    buf[b + 0x200 + 0x7D] = 0x19;
    buf[b + 0x7D] = 0x52;
    buf[b + 0x80 + 0x7D] = 0x10;
    let g = Game::from_buffer(String::from("x"), buf);
    let lvl = g.read_dungeon(1);
    assert_eq!(lvl.item_cellar_entrances, vec![0x10, 0x52]);
    assert_eq!(lvl.cellar_entrances, vec![0x63]);
    assert_eq!(lvl.cellar_rooms, vec![0x7F, 0x7E, 0x7D]);
}

#[test]
fn dungeon_text_matches_the_spoiler_layout() {
    let g = game();
    assert_eq!(g.read_dungeon(1).to_string(), LEVEL1_TEXT);
    let all = g.read_dungeon_data();
    for (i, lvl) in all.levels.iter().enumerate() {
        assert_eq!(lvl.dungeon as usize, i + 1);
    }
    assert_eq!(all.to_string(), DUNGEONS_TEXT);
}

#[test]
fn shop_keys_and_cave_text() {
    let g = game();
    assert_eq!(
        g.read_shop_keys(),
        vec![Shop { shop_index: 1, slot: 1, price: 80 }, Shop { shop_index: 4, slot: 2, price: 100 }]
    );
    assert_eq!(g.read_cave_data().to_string(), CAVE_TEXT);
    let empty = Game::from_buffer(String::from("x"), vec![0u8; 16]);
    assert!(empty.read_shop_keys().is_empty());
    assert_eq!(empty.read_cave_data().to_string(), "No shops\n");
}

#[test]
fn spoiler_log_is_caves_then_dungeons() {
    let g = game();
    assert_eq!(g.spoiler_log(), format!("{}{}", CAVE_TEXT, DUNGEONS_TEXT));
}

fn sample_inventory() -> StartInventoryOptions {
    StartInventoryOptions {
        start_sword: 2,
        start_arrow: 1,
        start_bow: true,
        start_candle: 2,
        start_ring: 1,
        start_magic_shield: 1,
        start_boomerang: 2,
        start_bombs: 4,
        max_bombs: 16,
        start_rupees: 200,
        start_keys: 3,
        heart_containers: 3,
        start_food: true,
        start_potion: 1,
        start_recorder: true,
        start_magic_rod: false,
        start_raft: true,
        start_book: false,
        start_ladder: true,
        start_magic_key: false,
        start_bracelet: true,
        start_letter: false,
    }
}

#[test]
fn starting_inventory_bytes() {
    let mut g = Game::from_buffer(String::from("x"), vec![0xAA; 0xC000]);
    g.set_starting_inventory(&sample_inventory());
    let b = &g.buffer()[INV..INV + 0x26];
    let expected: [u8; 0x26] = [
        2, 4, 1, 1, 2, 1, 1, 1, 0, 1, 0, 1, 1, 0, 1, 0, // 0x00-0x0F
        0xAA, 0xAA, 0xAA, 0xAA, 0xAA, 0xAA, // 0x10-0x15 untouched
        200, 3, 0x22, 0xFF, // 0x16-0x19
        0xAA, 0xAA, 0xAA, // 0x1A-0x1C untouched
        0, 1, 1, // 0x1D-0x1F
        0xAA, 0xAA, 0xAA, 0xAA, 0xAA, // 0x20-0x24 untouched
        16,
    ];
    assert_eq!(b, &expected[..]);
    assert_eq!(g.buffer()[INV - 1], 0xAA);
    assert_eq!(g.buffer()[INV + 0x26], 0xAA);
    assert_eq!(g.buffer().len(), 0xC000);
}

#[test]
fn heart_containers_are_clamped() {
    let mut o = StartInventoryOptions::default();
    let mut g = Game::from_buffer(String::from("x"), vec![0; 0xC000]);
    o.heart_containers = 0;
    g.set_starting_inventory(&o);
    assert_eq!(g.buffer()[INV + 0x18], 0x00);
    o.heart_containers = 20;
    g.set_starting_inventory(&o);
    assert_eq!(g.buffer()[INV + 0x18], 0xFF);
    o.heart_containers = 16;
    g.set_starting_inventory(&o);
    assert_eq!(g.buffer()[INV + 0x18], 0xFF);
    o.start_boomerang = 1;
    g.set_starting_inventory(&o);
    assert_eq!((g.buffer()[INV + 0x1D], g.buffer()[INV + 0x1E]), (1, 0));
}

#[test]
fn short_image_is_left_alone() {
    let mut g = Game::from_buffer(String::from("x"), vec![7; INV + 0x25]);
    g.set_starting_inventory(&sample_inventory());
    g.set_progression(&ProgressionOptions::default());
    assert!(g.buffer().iter().all(|&b| b == 7));
}

fn sample_progression() -> ProgressionOptions {
    ProgressionOptions {
        compasses: [true, false, true, false, false, false, false, true, true],
        maps: [false, true, false, false, false, false, false, false, false],
        triforce_pieces: [true, true, true, true, true, true, true, true, true],
        bosses_defeated: [false, false, false, true, false, false, false, false, true],
    }
}

#[test]
fn progression_bytes() {
    let mut g = Game::from_buffer(String::from("x"), vec![0xAA; 0xC000]);
    g.set_progression(&sample_progression());
    let b = g.buffer();
    assert_eq!(b[INV + 0x10], 0x85);
    assert_eq!(b[INV + 0x11], 0x02);
    assert_eq!(b[INV + 0x12], 1);
    assert_eq!(b[INV + 0x13], 0);
    assert_eq!(b[INV + 0x1A], 0xFF);
    assert_eq!(b[INV + 0x1B], 0x08);
    assert_eq!(b[INV + 0x14], 0xAA);
    assert_eq!(b[INV + 0x1C], 0xAA);
}

#[test]
fn inventory_and_progression_commute_law() {
    let mut a = Game::from_buffer(String::from("x"), vec![0x5C; 0xC000]);
    a.set_starting_inventory(&sample_inventory());
    a.set_progression(&sample_progression());
    let mut b = Game::from_buffer(String::from("x"), vec![0x5C; 0xC000]);
    b.set_progression(&sample_progression());
    b.set_starting_inventory(&sample_inventory());
    assert_eq!(a.buffer(), b.buffer());
}

#[test]
fn inventory_idempotent_law() {
    let mut a = Game::from_buffer(String::from("x"), vec![0x11; 0xC000]);
    a.set_starting_inventory(&sample_inventory());
    let once = a.buffer().to_vec();
    a.set_starting_inventory(&sample_inventory());
    assert_eq!(a.buffer(), &once[..]);
}

#[test]
fn bad_patch_is_invalid_data() {
    match Game::create_from_patch(String::from("base.nes"), &[1, 2, 3], b"not a patch") {
        Err(GameError::InvalidData(msg)) => assert!(!msg.is_empty()),
        Ok(_) => panic!("a patch without the BSDIFF40 header was accepted"),
    }
}

#[test]
fn patch_is_applied_to_the_base_rom() {
    let source: Vec<u8> = (0..4096u32).map(|i| (i * 7 % 251) as u8).collect();
    let mut target = source.clone();
    target[100] = 0xEE;
    target.extend_from_slice(b"extra bytes");
    let mut patch = Vec::new();
    qbsdiff::Bsdiff::new(&source, &target).compare(std::io::Cursor::new(&mut patch)).unwrap();
    let g = Game::create_from_patch(String::from("base.nes"), &source, &patch).unwrap();
    assert_eq!(g.buffer(), &target[..]);
    assert_eq!(g.base_rom_path(), "base.nes");
}

#[test]
fn make_patch_reproduces_the_image() {
    let old: Vec<u8> = (0..2048u32).map(|i| (i % 13) as u8).collect();
    let mut g = Game::from_buffer(String::from("base.nes"), vec![0u8; 0xC000]);
    g.set_starting_inventory(&sample_inventory());
    let patch = g.make_patch(&old).unwrap();
    assert!(!patch.is_empty());
    let mut rebuilt = Vec::new();
    bsdiff::patch(&old, &mut patch.as_slice(), &mut rebuilt).unwrap();
    assert_eq!(&rebuilt[..], g.buffer());
}

fn header(csize: u64, dsize: u64) -> Vec<u8> {
    let mut p = b"BSDIFF40".to_vec();
    p.extend_from_slice(&csize.to_le_bytes());
    p.extend_from_slice(&dsize.to_le_bytes());
    p.extend_from_slice(&0u64.to_le_bytes());
    p
}

#[test]
fn patch_header_sizes() {
    assert!(patch_header_fits(b"short"));
    assert!(patch_header_fits(&[0u8; 40]));
    assert!(patch_header_fits(&header(10, 20)));
    // A negative size reads as a number above 2^63; two of them overflow.
    let neg_one = (1u64 << 63) | 1;
    assert!(!patch_header_fits(&header(neg_one, 0)));
    assert!(!patch_header_fits(&header(neg_one, neg_one)));
    // -2^62 reads as 3 * 2^62, which still leaves room.
    assert!(patch_header_fits(&header((1u64 << 63) | (1u64 << 62), 0)));
    assert!(patch_header_fits(&header(1u64 << 63, 0)));
    assert!(patch_header_fits(&header(u64::MAX >> 1, 1u64 << 62)));
    assert!(!patch_header_fits(&header(u64::MAX >> 1, 1u64 << 63)));
}

#[test]
fn patch_sizes_past_the_end_are_refused() {
    match Game::create_from_patch(String::from("base.nes"), &[1, 2, 3], &header(100, 0)) {
        Err(GameError::InvalidData(msg)) => assert_eq!(msg, "patch corrupted"),
        Ok(_) => panic!("a truncated patch was accepted"),
    }
    assert!(Game::create_from_patch(String::from("base.nes"), &[1, 2, 3], &header(1u64 << 63, 0)).is_err());
}

#[test]
fn written_patch_is_not_a_bsdiff40_patch() {
    // `make_patch` writes the `bsdiff` crate's format, which has no "BSDIFF40" header,
    // so `create_from_patch` (qbsdiff) refuses it.
    let old: Vec<u8> = (0..512u32).map(|i| (i % 7) as u8).collect();
    let g = Game::from_buffer(String::from("base.nes"), vec![1u8; 600]);
    let patch = g.make_patch(&old).unwrap();
    assert!(patch_header_fits(&patch));
    match Game::create_from_patch(String::from("base.nes"), &old, &patch) {
        Err(GameError::InvalidData(msg)) => assert_eq!(msg, "not a valid patch"),
        Ok(_) => panic!("a patch without the BSDIFF40 header was accepted"),
    }
}
