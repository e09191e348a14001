use zdu_lib::rom_ext::{
    attrs_a_offset, attrs_b_offset, attrs_e_offset, attrs_f_offset, bfs_dungeon_rooms, bfs_dungeon_rooms_full,
    byte_at_or, level_info_addrs_q1_rom_offset, level_info_rooms, level_info_start_room, marked_ids,
    uw1_block_base, uw2_block_base, LevelInfoRooms,
};

/// A 256-byte block where every room is walled in.
fn walled_block() -> Vec<u8> {
    vec![0x24; 0x100]
}

fn sample_block() -> Vec<u8> {
    let mut buf = walled_block();
    // Room $12: south open, east open.
    buf[0x12] = 0x20;
    buf[0x80 + 0x12] = 0x20;
    // Room $13: east door locked (code 5, passable).
    buf[0x80 + 0x13] = 0x34;
    // Room $14: north open, east door with noise code 6 (solid).
    buf[0x14] = 0x04;
    buf[0x80 + 0x14] = 0x38;
    buf
}

#[test]
fn block_bases_and_offsets() {
    assert_eq!(uw1_block_base(), 0x1842B);
    assert_eq!(uw2_block_base(), 0x1872B);
    assert_eq!(attrs_a_offset(0x1842B, 0x10), 0x1843B);
    assert_eq!(attrs_b_offset(0x1842B, 0x10), 0x184BB);
    assert_eq!(attrs_e_offset(0x1842B, 0x10), 0x1863B);
    assert_eq!(attrs_f_offset(0x1842B, 0x10), 0x186BB);
    assert_eq!(level_info_addrs_q1_rom_offset(), 0x18024);
}

#[test]
fn byte_reads_default_past_the_end() {
    let buf = [1u8, 2, 3];
    assert_eq!(byte_at_or(&buf, 1, 9), 2);
    assert_eq!(byte_at_or(&buf, 3, 9), 9);
}

#[test]
fn walk_follows_passable_doors() {
    let buf = sample_block();
    assert_eq!(bfs_dungeon_rooms(&buf, 0, 0x12), vec![0x04, 0x12, 0x13, 0x14, 0x22]);
}

#[test]
fn walk_law_seed_listed_and_closed() {
    let buf = sample_block();
    let rooms = bfs_dungeon_rooms(&buf, 0, 0x12);
    assert!(rooms.contains(&0x12));
    // Listed in increasing order, and every open neighbour of a listed room is listed.
    assert!(rooms.windows(2).all(|w| w[0] < w[1]));
    for &r in &rooms {
        let a = buf[r as usize];
        let b = buf[0x80 + r as usize];
        let pass = |k: u8| matches!(k, 0 | 2 | 3 | 4 | 5);
        if pass((a >> 2) & 7) && r >> 4 < 7 {
            assert!(rooms.contains(&(r + 0x10)));
        }
        if pass(a >> 5) && r >> 4 > 0 {
            assert!(rooms.contains(&(r - 0x10)));
        }
        if pass((b >> 2) & 7) && r & 0x0F < 15 {
            assert!(rooms.contains(&(r + 1)));
        }
        if pass(b >> 5) && r & 0x0F > 0 {
            assert!(rooms.contains(&(r - 1)));
        }
    }
}

#[test]
fn walk_stops_at_the_grid_edge() {
    let mut buf = walled_block();
    buf[0x80 + 0x0F] = 0x20; // east open, but column 15 is the edge
    assert_eq!(bfs_dungeon_rooms(&buf, 0, 0x0F), vec![0x0F]);
}

#[test]
fn walk_from_a_non_room_is_empty() {
    let buf = walled_block();
    assert_eq!(bfs_dungeon_rooms(&buf, 0, 0x80), Vec::<u8>::new());
}

#[test]
fn walk_past_the_buffer_sees_open_doors() {
    assert_eq!(bfs_dungeon_rooms(&[], 0, 0x00).len(), 128);
}

#[test]
fn full_walk_uses_every_seed() {
    let buf = sample_block();
    let info = LevelInfoRooms {
        start_room: 0x22,
        triforce_room: 0xFF,
        boss_room: 0x04,
        cellar_rooms: [0x90, 0xFF, 0xFF, 0xFF, 0xFF, 0xFF, 0xFF, 0xFF, 0xFF, 0xFF],
    };
    assert_eq!(bfs_dungeon_rooms_full(&buf, 0, &info), vec![0x04, 0x22]);
}

fn rom_with_level_info() -> Vec<u8> {
    let mut buf = vec![0u8; 0x20000];
    // LevelInfoAddrsQ1[1] = $9000, i.e. ROM $19010.
    buf[0x18026] = 0x00;
    buf[0x18027] = 0x90;
    // LevelInfoAddrsQ1[2] = $7000: below bank 6.
    buf[0x18028] = 0x00;
    buf[0x18029] = 0x70;
    let base = 0x19010;
    buf[base + 0x2F] = 0x73;
    buf[base + 0x30] = 0x45;
    buf[base + 0x3E] = 0x35;
    for i in 0..10 {
        buf[base + 0x34 + i] = 0xFF;
    }
    buf[base + 0x34] = 0x7F;
    buf
}

#[test]
fn level_info_is_read_through_bank_six() {
    let buf = rom_with_level_info();
    assert_eq!(level_info_start_room(&buf, 1), Some(0x73));
    let info = level_info_rooms(&buf, 1).unwrap();
    assert_eq!(info.start_room, 0x73);
    assert_eq!(info.triforce_room, 0x45);
    assert_eq!(info.boss_room, 0x35);
    assert_eq!(info.cellar_rooms, [0x7F, 0xFF, 0xFF, 0xFF, 0xFF, 0xFF, 0xFF, 0xFF, 0xFF, 0xFF]);
}

#[test]
fn level_info_below_bank_six_or_past_the_end_is_missing() {
    let buf = rom_with_level_info();
    assert_eq!(level_info_start_room(&buf, 2), None);
    assert!(level_info_rooms(&buf, 2).is_none());
    let short = vec![0u8; 0x18000];
    assert_eq!(level_info_start_room(&short, 1), None);
    assert!(level_info_rooms(&short, 1).is_none());
    // The block lies partly past the end: the start room is there, the boss room is not.
    let mut cut = rom_with_level_info();
    cut.truncate(0x19010 + 0x30);
    assert_eq!(level_info_start_room(&cut, 1), Some(0x73));
    assert!(level_info_rooms(&cut, 1).is_none());
}

#[test]
fn marked_ids_lists_in_order() {
    let mut marks = vec![false; 0x80];
    marks[5] = true;
    marks[0x7F] = true;
    marks[0x10] = true;
    assert_eq!(marked_ids(&marks), vec![5, 0x10, 0x7F]);
}

#[test]
fn more_seeds_more_rooms_law() {
    let buf = sample_block();
    let info = LevelInfoRooms {
        start_room: 0x12,
        triforce_room: 0x40,
        boss_room: 0x12,
        cellar_rooms: [0x7F, 0xFF, 0xFF, 0xFF, 0xFF, 0xFF, 0xFF, 0xFF, 0xFF, 0xFF],
    };
    let from_start = bfs_dungeon_rooms(&buf, 0, info.start_room);
    let from_all = bfs_dungeon_rooms_full(&buf, 0, &info);
    assert!(!from_start.is_empty());
    for r in &from_start {
        assert!(from_all.contains(r));
    }
    assert!(from_all.contains(&0x40));
    assert!(from_all.contains(&0x7F));
    assert!(!from_start.contains(&0x40));
}
