use std::collections::HashMap;
use zdu_lib::server::protocol::{decode_message, encode_assign, encode_update, ClientMessage};
use zdu_lib::server::state::{
    all_items, broadcast_reply, check_reply, handle_update, make_broadcast, update_changes, BroadcastUpdate,
    GameState,
};

#[test]
fn assign_message_bytes() {
    assert_eq!(encode_assign(5), vec![0, 0, 0, 0, 0, 4, 0, 0, 0, 5]);
    assert_eq!(
        encode_assign(0x0102_0304),
        vec![0, 0, 0, 0, 0, 4, 1, 2, 3, 4]
    );
}

#[test]
fn update_message_bytes() {
    let msg = encode_update(7, 0x0102_0304_0506_0708, &[(0x10, 1), (0x20, 2)]);
    assert_eq!(
        msg,
        vec![2, 0, 0, 0, 7, 12, 1, 2, 3, 4, 5, 6, 7, 8, 0x10, 1, 0x20, 2]
    );
}

#[test]
fn update_message_without_pairs() {
    assert_eq!(
        encode_update(0, 9, &[]),
        vec![2, 0, 0, 0, 0, 8, 0, 0, 0, 0, 0, 0, 0, 9]
    );
}

#[test]
fn update_length_byte_wraps() {
    // 124 pairs make a payload of 256 bytes: the length byte holds 0.
    let pairs: Vec<(u8, u8)> = (0..124).map(|i| (i as u8, 1)).collect();
    let msg = encode_update(1, 1, &pairs);
    assert_eq!(msg[5], 0);
    assert_eq!(msg.len(), 6 + 8 + 248);
}

#[test]
fn decode_check() {
    let header = [1, 0, 0, 0, 3, 8];
    let payload = [0, 0, 0, 0, 0, 0, 1, 9];
    match decode_message(&header, &payload) {
        Some(ClientMessage::Check { client_id, change_number }) => {
            assert_eq!(client_id, 3);
            assert_eq!(change_number, 0x109);
        }
        other => panic!("unexpected {:?}", other),
    }
}

#[test]
fn decode_assign() {
    let header = [0, 0, 0, 1, 0, 4];
    let payload = [0, 0, 0, 42];
    match decode_message(&header, &payload) {
        Some(ClientMessage::Assign { client_id, assigned_id }) => {
            assert_eq!(client_id, 256);
            assert_eq!(assigned_id, 42);
        }
        other => panic!("unexpected {:?}", other),
    }
}

#[test]
fn decode_update_drops_a_trailing_odd_byte() {
    let header = [2, 0, 0, 0, 1, 11];
    let payload = [0, 0, 0, 0, 0, 0, 0, 4, 0x10, 3, 0x77];
    match decode_message(&header, &payload) {
        Some(ClientMessage::Update { client_id, change_number, updates }) => {
            assert_eq!(client_id, 1);
            assert_eq!(change_number, 4);
            assert_eq!(updates, vec![(0x10, 3)]);
        }
        other => panic!("unexpected {:?}", other),
    }
}

#[test]
fn decode_short_or_unknown_is_none() {
    assert!(decode_message(&[0, 0, 0, 0, 1, 3], &[0, 0, 0]).is_none());
    assert!(decode_message(&[1, 0, 0, 0, 1, 7], &[0; 7]).is_none());
    assert!(decode_message(&[2, 0, 0, 0, 1, 0], &[]).is_none());
    assert!(decode_message(&[3, 0, 0, 0, 1, 8], &[0; 8]).is_none());
}

#[test]
fn update_roundtrip_law() {
    let pairs = vec![(1u8, 2u8), (0x30, 0xFF), (0x25, 8)];
    let msg = encode_update(99, 12345, &pairs);
    let (header, payload) = msg.split_at(6);
    match decode_message(header, payload) {
        Some(ClientMessage::Update { client_id, change_number, updates }) => {
            assert_eq!(client_id, 99);
            assert_eq!(change_number, 12345);
            assert_eq!(updates, pairs);
        }
        other => panic!("unexpected {:?}", other),
    }
}

#[test]
fn assign_roundtrip_law() {
    let msg = encode_assign(77);
    let (header, payload) = msg.split_at(6);
    match decode_message(header, payload) {
        Some(ClientMessage::Assign { client_id, assigned_id }) => {
            assert_eq!(client_id, 0);
            assert_eq!(assigned_id, 77);
        }
        other => panic!("unexpected {:?}", other),
    }
}

#[test]
fn default_state_is_empty() {
    let s = GameState::default();
    assert!(s.items.is_empty());
    assert_eq!(s.change_number, 0);
}

#[test]
fn update_stores_only_changes() {
    let mut s = GameState::default();
    let r = handle_update(&mut s, 1, 1, &[(5, 3), (5, 3), (6, 0)]);
    assert_eq!(r, Some((1, vec![(5, 3)])));
    assert_eq!(s.change_number, 1);
    assert_eq!(s.items.len(), 1);
    assert_eq!(s.items.get(&5), Some(&3));
}

#[test]
fn update_with_no_change_keeps_the_number() {
    let mut s = GameState::default();
    s.items.insert(5, 3);
    s.change_number = 4;
    let r = handle_update(&mut s, 1, 1, &[(5, 3), (9, 0)]);
    assert_eq!(r, None);
    assert_eq!(s.change_number, 4);
    assert_eq!(s.items.len(), 1);
}

#[test]
fn later_pair_wins_within_one_update() {
    let mut s = GameState::default();
    let r = handle_update(&mut s, 2, 2, &[(5, 3), (5, 4), (5, 0)]);
    assert_eq!(r, Some((1, vec![(5, 3), (5, 4), (5, 0)])));
    assert_eq!(s.items.get(&5), Some(&0));
}

#[test]
fn update_from_another_id_is_ignored() {
    let mut s = GameState::default();
    let r = handle_update(&mut s, 1, 2, &[(5, 3)]);
    assert_eq!(r, None);
    assert!(s.items.is_empty());
    assert_eq!(s.change_number, 0);
}

#[test]
fn all_items_in_offset_order() {
    let mut s = GameState::default();
    s.items.insert(9, 1);
    s.items.insert(3, 2);
    s.items.insert(0xFF, 7);
    s.items.insert(0x100, 5);
    assert_eq!(all_items(&s), vec![(3, 2), (9, 1), (0xFF, 7)]);
}

#[test]
fn check_reply_sends_the_whole_state() {
    let mut s = GameState::default();
    handle_update(&mut s, 1, 1, &[(5, 3), (2, 9)]);
    assert_eq!(
        check_reply(&s, 1, 1, 0),
        Some(vec![2, 0, 0, 0, 0, 12, 0, 0, 0, 0, 0, 0, 0, 1, 2, 9, 5, 3])
    );
    assert_eq!(check_reply(&s, 1, 1, 1), None);
    assert_eq!(check_reply(&s, 1, 2, 0), None);
}

#[test]
fn broadcast_is_not_echoed_to_its_sender() {
    let b = make_broadcast(4, 2, &[(1, 2), (0x22, 5)]);
    assert_eq!(b.sender_id, 4);
    assert_eq!(b.new_change_number, 2);
    assert_eq!(b.updates, vec![(1u16, 2u8), (0x22, 5)]);
    assert_eq!(broadcast_reply(&b, 4), None);
    assert_eq!(
        broadcast_reply(&b, 5),
        Some(vec![2, 0, 0, 0, 0, 12, 0, 0, 0, 0, 0, 0, 0, 2, 1, 2, 0x22, 5])
    );
}

#[test]
fn broadcast_narrows_wide_offsets() {
    let b = BroadcastUpdate { sender_id: 1, new_change_number: 3, updates: vec![(0x1FF, 7)] };
    assert_eq!(
        broadcast_reply(&b, 2),
        Some(vec![2, 0, 0, 0, 0, 10, 0, 0, 0, 0, 0, 0, 0, 3, 0xFF, 7])
    );
}

#[test]
fn state_items_map_type() {
    let mut items: HashMap<u16, u8> = HashMap::new();
    items.insert(1, 1);
    let s = GameState { items, change_number: 1 };
    assert_eq!(all_items(&s), vec![(1, 1)]);
}

#[test]
fn update_changes_predicts_a_change() {
    let mut s = GameState::default();
    s.items.insert(5, 3);
    assert!(!update_changes(&s, &[]));
    assert!(!update_changes(&s, &[(5, 3), (6, 0)]));
    assert!(update_changes(&s, &[(5, 3), (5, 0)]));
    assert!(update_changes(&s, &[(7, 1), (7, 0)]));
    let r = handle_update(&mut s, 1, 1, &[(7, 1), (7, 0)]);
    assert_eq!(r, Some((1, vec![(7, 1), (7, 0)])));
}

#[test]
fn broadcast_roundtrip_law() {
    let changes = vec![(0x10u8, 1u8), (0x25, 12)];
    let b = make_broadcast(3, 8, &changes);
    let msg = broadcast_reply(&b, 4).unwrap();
    let (header, payload) = msg.split_at(6);
    match decode_message(header, payload) {
        Some(ClientMessage::Update { client_id, change_number, updates }) => {
            assert_eq!(client_id, 0);
            assert_eq!(change_number, 8);
            assert_eq!(updates, changes);
        }
        other => panic!("unexpected {:?}", other),
    }
}
