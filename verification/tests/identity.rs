use perlsub::identity::{decode_reply_id, encode_reply_id, key_of, unique_id, WrongLength};
use perlsub::update::Message;

fn message(id: i32, chat_id: i64) -> Message {
    Message { id, chat_id, text: None, reply_to: None }
}

fn expected_key(id: i32, chat_id: i64) -> [u8; 16] {
    let mut key = [0u8; 16];
    key[..8].copy_from_slice(&chat_id.to_le_bytes());
    key[8..].copy_from_slice(&(id as i64).to_le_bytes());
    key
}

#[test]
fn key_has_chat_low_and_message_high() {
    assert_eq!(
        unique_id(&message(1, 2)),
        [2, 0, 0, 0, 0, 0, 0, 0, 1, 0, 0, 0, 0, 0, 0, 0]
    );
}

#[test]
fn key_of_larger_ids() {
    assert_eq!(
        unique_id(&message(0x0102_0304, 0x1122_3344_5566_7788)),
        [0x88, 0x77, 0x66, 0x55, 0x44, 0x33, 0x22, 0x11, 0x04, 0x03, 0x02, 0x01, 0, 0, 0, 0]
    );
}

#[test]
fn key_of_zero_ids() {
    assert_eq!(unique_id(&message(0, 0)), [0u8; 16]);
}

#[test]
fn key_is_the_shifted_sum_for_positive_ids() {
    let id: i32 = 4711;
    let chat: i64 = 123_456_789_012;
    let combined = ((id as u128) << 64) | (chat as u128);
    assert_eq!(unique_id(&message(id, chat)), combined.to_le_bytes());
}

#[test]
fn key_of_a_group_chat_keeps_the_message() {
    let key = unique_id(&message(5, -1001234567890));
    assert_eq!(key, expected_key(5, -1001234567890));
    assert_eq!(&key[8..], &[5, 0, 0, 0, 0, 0, 0, 0]);
}

#[test]
fn keys_of_distinct_messages_in_a_group_chat_differ() {
    let chat = -1001234567890;
    assert_ne!(unique_id(&message(5, chat)), unique_id(&message(6, chat)));
}

#[test]
fn keys_of_extreme_ids() {
    for id in [i32::MIN, -1, 0, 1, i32::MAX] {
        for chat in [i64::MIN, -1, 0, 1, i64::MAX] {
            assert_eq!(unique_id(&message(id, chat)), expected_key(id, chat));
        }
    }
}

#[test]
fn keys_are_injective_on_a_grid() {
    let ids = [i32::MIN, -2, -1, 0, 1, 2, 255, 256, 65536, i32::MAX];
    let chats = [i64::MIN, -4294967296, -2, -1, 0, 1, 2, 255, 256, 4294967296, i64::MAX];
    let mut seen: Vec<([u8; 16], i32, i64)> = Vec::new();
    for id in ids {
        for chat in chats {
            let key = unique_id(&message(id, chat));
            for (other, other_id, other_chat) in &seen {
                assert_ne!(&key, other, "({}, {}) and ({}, {})", id, chat, other_id, other_chat);
            }
            seen.push((key, id, chat));
        }
    }
}

#[test]
fn key_does_not_depend_on_text() {
    let with_text =
        Message { id: 3, chat_id: 4, text: Some("s/a/b/".to_string()), reply_to: None };
    assert_eq!(unique_id(&with_text), unique_id(&message(3, 4)));
    assert_eq!(unique_id(&with_text), unique_id(&with_text));
}

#[test]
fn reply_id_is_four_little_endian_bytes() {
    assert_eq!(encode_reply_id(1), [1, 0, 0, 0]);
    assert_eq!(encode_reply_id(0x0102_0304), [4, 3, 2, 1]);
    assert_eq!(encode_reply_id(0), [0, 0, 0, 0]);
    assert_eq!(encode_reply_id(-1), [255, 255, 255, 255]);
    assert_eq!(encode_reply_id(i32::MIN), [0, 0, 0, 0x80]);
    assert_eq!(encode_reply_id(i32::MAX), [255, 255, 255, 0x7f]);
}

#[test]
fn reply_id_agrees_with_the_standard_library() {
    for id in [i32::MIN, -65536, -1, 0, 1, 42, 255, 256, 1_000_000, i32::MAX] {
        assert_eq!(encode_reply_id(id), id.to_le_bytes());
        assert_eq!(decode_reply_id(&id.to_le_bytes()), Ok(id));
    }
}

#[test]
fn reply_id_round_trip() {
    for id in [i32::MIN, -2, -1, 0, 1, 2, 4711, i32::MAX] {
        assert_eq!(decode_reply_id(&encode_reply_id(id)), Ok(id));
    }
}

#[test]
fn reply_bytes_round_trip() {
    for bytes in [[0u8, 0, 0, 0], [1, 2, 3, 4], [255, 255, 255, 127], [0, 0, 0, 128], [9, 0, 0, 255]] {
        let id = decode_reply_id(&bytes).unwrap();
        assert_eq!(encode_reply_id(id), bytes);
    }
}

#[test]
fn reply_id_of_wrong_length_is_refused() {
    assert_eq!(decode_reply_id(&[]), Err(WrongLength { found: 0 }));
    assert_eq!(decode_reply_id(&[1, 2, 3]), Err(WrongLength { found: 3 }));
    assert_eq!(decode_reply_id(&[1, 2, 3, 4, 5]), Err(WrongLength { found: 5 }));
    assert_eq!(decode_reply_id(&[0u8; 16]), Err(WrongLength { found: 16 }));
}

#[test]
fn key_of_ids_is_the_key_of_the_message() {
    assert_eq!(key_of(1, 2), [2, 0, 0, 0, 0, 0, 0, 0, 1, 0, 0, 0, 0, 0, 0, 0]);
    assert_eq!(key_of(-1, -2), expected_key(-1, -2));
    assert_eq!(
        key_of(-1, -2),
        [0xfe, 0xff, 0xff, 0xff, 0xff, 0xff, 0xff, 0xff, 0xff, 0xff, 0xff, 0xff, 0xff, 0xff, 0xff, 0xff]
    );
    for (id, chat) in [(0, 0), (41, -1001234567890), (i32::MIN, i64::MAX)] {
        assert_eq!(key_of(id, chat), unique_id(&message(id, chat)));
    }
}
