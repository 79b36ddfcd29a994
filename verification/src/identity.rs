//! Keys and values of the correlation store: the 16-byte key of an inbound
//! message and the 4-byte value that names the reply sent for it.

use crate::update::Message;
use vstd::prelude::*;

verus! {

/// The value of a signed 64-bit number read as an unsigned one.
pub open spec fn unsigned64(x: int) -> int {
    if x >= 0 {
        x
    } else {
        x + 0x1_0000_0000_0000_0000
    }
}

/// The value of a signed 32-bit number read as an unsigned one.
pub open spec fn unsigned32(x: int) -> int {
    if x >= 0 {
        x
    } else {
        x + 0x1_0000_0000
    }
}

/// The value of an unsigned 32-bit number read as a signed one.
pub open spec fn signed32(x: int) -> int {
    if x < 0x8000_0000 {
        x
    } else {
        x - 0x1_0000_0000
    }
}

/// The `width` lowest base-256 digits of `value`, lowest first.
pub open spec fn le_bytes(value: int, width: nat) -> Seq<u8>
    decreases width,
{
    if width == 0 {
        Seq::empty()
    } else {
        seq![(value % 256) as u8] + le_bytes(value / 256, (width - 1) as nat)
    }
}

/// The number whose base-256 digits, lowest first, are `bytes`.
pub open spec fn le_value(bytes: Seq<u8>) -> int
    decreases bytes.len(),
{
    if bytes.len() == 0 {
        0
    } else {
        bytes[0] + 256 * le_value(bytes.skip(1))
    }
}

/// The store key of the message `message_id` in the chat `chat_id`: the chat
/// in the low eight bytes, the message in the high eight, each as a
/// little-endian two's-complement number.
pub open spec fn event_key(message_id: i32, chat_id: i64) -> Seq<u8> {
    le_bytes(unsigned64(chat_id as int), 8) + le_bytes(unsigned64(message_id as int), 8)
}

/// The store value for the reply `reply_id`: its four little-endian bytes.
pub open spec fn reply_bytes(reply_id: i32) -> Seq<u8> {
    le_bytes(unsigned32(reply_id as int), 4)
}

/// The reply that a store value names, if it has the length of one.
pub open spec fn reply_of(bytes: Seq<u8>) -> Option<i32> {
    if bytes.len() == 4 {
        Some(signed32(le_value(bytes)) as i32)
    } else {
        None
    }
}

/// A store value that does not have the four bytes of a reply id.
#[derive(Clone, Copy, Debug, PartialEq, Eq)]
pub struct WrongLength {
    pub found: usize,
}

/// The eight little-endian bytes of `value`.
fn le_bytes_of(value: u64) -> (bytes: [u8; 8])
    ensures
        bytes@ == le_bytes(value as int, 8),
{
    let b0 = (value % 256) as u8;
    let v1 = value / 256;
    let b1 = (v1 % 256) as u8;
    let v2 = v1 / 256;
    let b2 = (v2 % 256) as u8;
    let v3 = v2 / 256;
    let b3 = (v3 % 256) as u8;
    let v4 = v3 / 256;
    let b4 = (v4 % 256) as u8;
    let v5 = v4 / 256;
    let b5 = (v5 % 256) as u8;
    let v6 = v5 / 256;
    let b6 = (v6 % 256) as u8;
    let v7 = v6 / 256;
    let b7 = (v7 % 256) as u8;
    let bytes = [b0, b1, b2, b3, b4, b5, b6, b7];
    proof {
        reveal_with_fuel(le_bytes, 9);
        assert(bytes@ =~= le_bytes(value as int, 8));
    }
    bytes
}

/// `x` read as an unsigned number of the same width.
fn as_unsigned(x: i64) -> (u: u64)
    ensures
        u == unsigned64(x as int),
{
    if x >= 0 {
        x as u64
    } else {
        ((x + i64::MAX) + 1) as u64 + 0x8000_0000_0000_0000
    }
}

/// The store key of the message `message_id` in the chat `chat_id`.
pub fn key_of(message_id: i32, chat_id: i64) -> (key: [u8; 16])
    ensures
        key@ == event_key(message_id, chat_id),
{
    let low = le_bytes_of(as_unsigned(chat_id));
    let high = le_bytes_of(as_unsigned(message_id as i64));
    let key = [
        low[0],
        low[1],
        low[2],
        low[3],
        low[4],
        low[5],
        low[6],
        low[7],
        high[0],
        high[1],
        high[2],
        high[3],
        high[4],
        high[5],
        high[6],
        high[7],
    ];
    assert(key@ =~= low@ + high@);
    key
}

/// The store key of `message`: that of its id in its chat.
pub fn unique_id(message: &Message) -> (key: [u8; 16])
    ensures
        key@ == event_key(message.id, message.chat_id),
{
    key_of(message.id, message.chat_id)
}

/// The store value for the reply `reply_id`.
pub fn encode_reply_id(reply_id: i32) -> (bytes: [u8; 4])
    ensures
        bytes@ == reply_bytes(reply_id),
{
    let value: u32 = if reply_id >= 0 {
        reply_id as u32
    } else {
        ((reply_id + i32::MAX) + 1) as u32 + 0x8000_0000
    };
    let b0 = (value % 256) as u8;
    let v1 = value / 256;
    let b1 = (v1 % 256) as u8;
    let v2 = v1 / 256;
    let b2 = (v2 % 256) as u8;
    let v3 = v2 / 256;
    let b3 = (v3 % 256) as u8;
    let bytes = [b0, b1, b2, b3];
    proof {
        reveal_with_fuel(le_bytes, 5);
        assert(bytes@ =~= le_bytes(value as int, 4));
    }
    bytes
}

/// The reply that the store value `bytes` names. A value of any other length
/// than four bytes names none.
pub fn decode_reply_id(bytes: &[u8]) -> (reply: Result<i32, WrongLength>)
    ensures
        match reply {
            Ok(id) => reply_of(bytes@) == Some(id),
            Err(e) => reply_of(bytes@).is_none() && e.found == bytes@.len(),
        },
{
    if bytes.len() != 4 {
        return Err(WrongLength { found: bytes.len() });
    }
    let value: i64 = bytes[0] as i64 + 256 * (bytes[1] as i64) + 65536 * (bytes[2] as i64)
        + 16777216 * (bytes[3] as i64);
    proof {
        reveal_with_fuel(le_value, 5);
        let s = bytes@;
        assert(s.skip(1)[0] == s[1]);
        assert(s.skip(1).skip(1)[0] == s[2]);
        assert(s.skip(1).skip(1).skip(1)[0] == s[3]);
        assert(s.skip(1).skip(1).skip(1).skip(1).len() == 0);
        assert(le_value(s) == value);
    }
    if value < 0x8000_0000 {
        Ok(value as i32)
    } else {
        Ok((value - 0x1_0000_0000) as i32)
    }
}

/// 256 to the power of `width`.
pub open spec fn radix(width: nat) -> int
    decreases width,
{
    if width == 0 {
        1
    } else {
        256 * radix((width - 1) as nat)
    }
}

/// `le_bytes` has the width asked for.
pub proof fn lemma_le_bytes_len(value: int, width: nat)
    ensures
        le_bytes(value, width).len() == width,
    decreases width,
{
    if width > 0 {
        lemma_le_bytes_len(value / 256, (width - 1) as nat);
    }
}

/// A number that fits in `width` bytes is the value of its bytes.
pub proof fn lemma_le_value_of_bytes(value: int, width: nat)
    requires
        0 <= value < radix(width),
    ensures
        le_value(le_bytes(value, width)) == value,
    decreases width,
{
    if width > 0 {
        let rest = le_bytes(value / 256, (width - 1) as nat);
        lemma_le_bytes_len(value / 256, (width - 1) as nat);
        lemma_le_value_of_bytes(value / 256, (width - 1) as nat);
        assert(le_bytes(value, width).skip(1) =~= rest);
    }
}

/// Bytes are the bytes of their value, which fits in as many bytes.
pub proof fn lemma_le_bytes_of_value(bytes: Seq<u8>)
    ensures
        0 <= le_value(bytes) < radix(bytes.len()),
        le_bytes(le_value(bytes), bytes.len()) == bytes,
    decreases bytes.len(),
{
    if bytes.len() > 0 {
        lemma_le_bytes_of_value(bytes.skip(1));
        assert(le_bytes(le_value(bytes), bytes.len()) =~= bytes);
    }
}

/// Two messages have the same store key only if they are the same message
/// of the same chat. Every key has sixteen bytes.
pub proof fn lemma_event_key_injective(
    message_id: i32,
    chat_id: i64,
    other_message_id: i32,
    other_chat_id: i64,
)
    ensures
        event_key(message_id, chat_id).len() == 16,
        event_key(message_id, chat_id) == event_key(other_message_id, other_chat_id) ==> (
        message_id == other_message_id && chat_id == other_chat_id),
{
    let low = le_bytes(unsigned64(chat_id as int), 8);
    let high = le_bytes(unsigned64(message_id as int), 8);
    let other_low = le_bytes(unsigned64(other_chat_id as int), 8);
    let other_high = le_bytes(unsigned64(other_message_id as int), 8);
    lemma_le_bytes_len(unsigned64(chat_id as int), 8);
    lemma_le_bytes_len(unsigned64(message_id as int), 8);
    lemma_le_bytes_len(unsigned64(other_chat_id as int), 8);
    lemma_le_bytes_len(unsigned64(other_message_id as int), 8);
    assert(radix(8) == 0x1_0000_0000_0000_0000) by {
        reveal_with_fuel(radix, 9);
    }
    lemma_le_value_of_bytes(unsigned64(chat_id as int), 8);
    lemma_le_value_of_bytes(unsigned64(message_id as int), 8);
    lemma_le_value_of_bytes(unsigned64(other_chat_id as int), 8);
    lemma_le_value_of_bytes(unsigned64(other_message_id as int), 8);
    if low + high == other_low + other_high {
        assert((low + high).subrange(0, 8) =~= low);
        assert((other_low + other_high).subrange(0, 8) =~= other_low);
        assert((low + high).subrange(8, 16) =~= high);
        assert((other_low + other_high).subrange(8, 16) =~= other_high);
    }
}

/// The store value written for a reply names that reply when read back.
pub proof fn lemma_reply_round_trip(reply_id: i32)
    ensures
        reply_bytes(reply_id).len() == 4,
        reply_of(reply_bytes(reply_id)) == Some(reply_id),
{
    assert(radix(4) == 0x1_0000_0000) by {
        reveal_with_fuel(radix, 5);
    }
    lemma_le_bytes_len(unsigned32(reply_id as int), 4);
    lemma_le_value_of_bytes(unsigned32(reply_id as int), 4);
}

/// Every store value of four bytes is the value written for the reply that
/// it names.
pub proof fn lemma_reply_bytes_round_trip(bytes: Seq<u8>)
    requires
        bytes.len() == 4,
    ensures
        reply_of(bytes) matches Some(id) && reply_bytes(id) == bytes,
{
    assert(radix(4) == 0x1_0000_0000) by {
        reveal_with_fuel(radix, 5);
    }
    lemma_le_bytes_of_value(bytes);
}

/// A store that holds what was put into it gives back the reply recorded
/// for a message under the key of that message, and recording one message
/// neither adds nor changes the entry of any other: a message that was never
/// recorded stays absent.
pub proof fn lemma_store_round_trip(
    store: Map<Seq<u8>, Seq<u8>>,
    message_id: i32,
    chat_id: i64,
    reply_id: i32,
    other_message_id: i32,
    other_chat_id: i64,
)
    ensures
        ({
            let recorded = store.insert(event_key(message_id, chat_id), reply_bytes(reply_id));
            let key = event_key(message_id, chat_id);
            let other_key = event_key(other_message_id, other_chat_id);
            &&& recorded.dom().contains(key)
            &&& reply_of(recorded[key]) == Some(reply_id)
            &&& (other_message_id != message_id || other_chat_id != chat_id) ==> {
                &&& recorded.dom().contains(other_key) == store.dom().contains(other_key)
                &&& recorded[other_key] == store[other_key]
            }
        }),
{
    lemma_reply_round_trip(reply_id);
    lemma_event_key_injective(message_id, chat_id, other_message_id, other_chat_id);
}

} // verus!
