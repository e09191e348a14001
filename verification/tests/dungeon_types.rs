use zdu_lib::dungeon::door_kind::DoorKind;
use zdu_lib::dungeon::door_set::DoorSet;
use zdu_lib::dungeon::room_data::RoomData;
use zdu_lib::dungeon::room_item::RoomItem;
use zdu_lib::dungeon::room_trigger::RoomTrigger;

const ALL_KINDS: [DoorKind; 7] = [
    DoorKind::Open,
    DoorKind::Wall,
    DoorKind::InvisibleWall,
    DoorKind::PushBlock,
    DoorKind::Bombable,
    DoorKind::Locked,
    DoorKind::Shutter,
];

#[test]
fn door_kind_from_bits_uses_low_three_bits() {
    assert_eq!(DoorKind::from_bits(0), DoorKind::Open);
    assert_eq!(DoorKind::from_bits(1), DoorKind::Wall);
    assert_eq!(DoorKind::from_bits(2), DoorKind::InvisibleWall);
    assert_eq!(DoorKind::from_bits(3), DoorKind::PushBlock);
    assert_eq!(DoorKind::from_bits(4), DoorKind::Bombable);
    assert_eq!(DoorKind::from_bits(5), DoorKind::Locked);
    assert_eq!(DoorKind::from_bits(6), DoorKind::Locked);
    assert_eq!(DoorKind::from_bits(7), DoorKind::Shutter);
    assert_eq!(DoorKind::from_bits(0x0E), DoorKind::Locked);
    assert_eq!(DoorKind::from_bits(0xF9), DoorKind::Wall);
}

#[test]
fn door_kind_codes_and_labels() {
    assert_eq!(DoorKind::Shutter.to_bits(), 7);
    assert_eq!(DoorKind::Locked.to_bits(), 5);
    assert_eq!(DoorKind::InvisibleWall.label(), "invisible-wall");
    assert_eq!(DoorKind::PushBlock.label(), "push-block");
    assert_eq!(DoorKind::Open.label(), "open");
}

#[test]
fn door_kind_code_roundtrip_law() {
    for k in ALL_KINDS {
        assert_eq!(DoorKind::from_bits(k.to_bits()), k);
    }
}

#[test]
fn door_set_from_attrs() {
    let d = DoorSet::from_attrs(0x94, 0x3C);
    assert_eq!(d.north, DoorKind::Bombable);
    assert_eq!(d.south, DoorKind::Locked);
    assert_eq!(d.west, DoorKind::Wall);
    assert_eq!(d.east, DoorKind::Shutter);
}

#[test]
fn door_set_encode_keeps_low_bits() {
    let doors = DoorSet {
        north: DoorKind::Shutter,
        south: DoorKind::Open,
        east: DoorKind::PushBlock,
        west: DoorKind::InvisibleWall,
    };
    let mut a: u8 = 0xFF;
    let mut b: u8 = 0x02;
    doors.encode_into(&mut a, &mut b);
    assert_eq!(a, 0xE3);
    assert_eq!(b, 0x4E);
    assert_eq!(DoorSet::from_attrs(a, b), doors);
}

#[test]
fn door_set_encode_decode_law_all_kinds() {
    for n in ALL_KINDS {
        for s in ALL_KINDS {
            let doors = DoorSet { north: n, south: s, east: s, west: n };
            let mut a: u8 = 0x5A;
            let mut b: u8 = 0xA5;
            doors.encode_into(&mut a, &mut b);
            assert_eq!(DoorSet::from_attrs(a, b), doors);
            assert_eq!(a & 3, 0x5A & 3);
            assert_eq!(b & 3, 0xA5 & 3);
        }
    }
}

#[test]
fn door_set_decode_encode_restores_bytes_without_code_six() {
    let (a0, b0) = (0x97u8, 0x2Du8);
    let doors = DoorSet::from_attrs(a0, b0);
    let (mut a, mut b) = (a0, b0);
    doors.encode_into(&mut a, &mut b);
    assert_eq!((a, b), (a0, b0));
    // Code 6 decodes to a locked door, which is stored as 5.
    let doors = DoorSet::from_attrs(0xC0, 0x00);
    let (mut a, mut b) = (0xC0u8, 0x00u8);
    doors.encode_into(&mut a, &mut b);
    assert_eq!(a, 0xA0);
}

#[test]
fn door_set_notable() {
    assert!(!DoorSet::all_open().has_notable());
    let walls = DoorSet {
        north: DoorKind::Wall,
        south: DoorKind::Open,
        east: DoorKind::Wall,
        west: DoorKind::Open,
    };
    assert!(!walls.has_notable());
    let bomb = DoorSet { west: DoorKind::Bombable, ..walls };
    assert!(bomb.has_notable());
    assert_eq!(DoorSet::all_open().north, DoorKind::Open);
}

#[test]
fn room_trigger_bits() {
    assert_eq!(RoomTrigger::from_bits(0x08), RoomTrigger::NoTrigger);
    assert_eq!(RoomTrigger::from_bits(0x0B), RoomTrigger::Boss);
    assert_eq!(RoomTrigger::from_bits(0x0F), RoomTrigger::KillAll);
    assert_eq!(RoomTrigger::from_bits(0x05), RoomTrigger::Other(5));
    assert_eq!(RoomTrigger::Other(0x0D).to_bits(), 5);
    assert_eq!(RoomTrigger::Boss.to_bits(), 3);
    assert_eq!(RoomTrigger::KillAll.label(), "Kill-all");
    assert_eq!(RoomTrigger::NoTrigger.label(), "-");
}

#[test]
fn room_trigger_roundtrip_laws() {
    for b in 0u8..=255 {
        assert_eq!(RoomTrigger::from_bits(b).to_bits(), b & 7);
    }
    for t in [
        RoomTrigger::NoTrigger,
        RoomTrigger::Boss,
        RoomTrigger::KillAll,
        RoomTrigger::Other(1),
        RoomTrigger::Other(2),
        RoomTrigger::Other(4),
        RoomTrigger::Other(5),
        RoomTrigger::Other(6),
    ] {
        assert_eq!(RoomTrigger::from_bits(t.to_bits()), t);
    }
    // A non-canonical trigger does not come back: Other(3) is the boss code.
    assert_eq!(RoomTrigger::from_bits(RoomTrigger::Other(3).to_bits()), RoomTrigger::Boss);
}

#[test]
fn room_item_codes() {
    assert_eq!(RoomItem::from_id(0x19), RoomItem::Key);
    assert_eq!(RoomItem::from_id(0x03), RoomItem::NoItem);
    assert_eq!(RoomItem::from_id(0x1A), RoomItem::HeartContainer);
    assert_eq!(RoomItem::from_id(0x17), RoomItem::DungeonMap);
    assert_eq!(RoomItem::from_id(0x10), RoomItem::Other(0x10));
    assert_eq!(RoomItem::Key.label(), "Key");
}

#[test]
fn room_data_row_and_notability() {
    let r = RoomData {
        room_id: 0x3A,
        item: RoomItem::Key,
        trigger: RoomTrigger::Boss,
        doors: DoorSet {
            north: DoorKind::Locked,
            south: DoorKind::Open,
            east: DoorKind::Wall,
            west: DoorKind::Shutter,
        },
    };
    assert_eq!(r.format_row(), "| Room $3A | Key | Boss | locked | open | wall | shutter |");
    assert!(r.is_notable());
    let plain = RoomData {
        room_id: 0x05,
        item: RoomItem::NoItem,
        trigger: RoomTrigger::NoTrigger,
        doors: DoorSet { north: DoorKind::Wall, ..DoorSet::all_open() },
    };
    assert!(!plain.is_notable());
    let with_item = RoomData { item: RoomItem::Compass, ..plain };
    assert!(with_item.is_notable());
    let with_trigger = RoomData { trigger: RoomTrigger::KillAll, ..plain };
    assert!(with_trigger.is_notable());
}
