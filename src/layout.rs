//! Bit layout of an id: a 41-bit timestamp, a 10-bit instance tag and a
//! 12-bit sequence number, packed into the low 63 bits of an `i64` so that
//! every id is non-negative.
use vstd::prelude::*;

verus! {

/// Largest sequence number; the counter saturates here.
pub const MAX_SEQUENCE: u16 = 4095;

/// Instance tags are below this bound.
pub const INSTANCE_LIMIT: i32 = 1024;

/// Timestamps (milliseconds since the epoch) are below this bound.
pub const TIMESTAMP_LIMIT: i64 = 0x200_0000_0000;

pub open spec fn valid_timestamp(t: int) -> bool {
    0 <= t < TIMESTAMP_LIMIT
}

pub open spec fn valid_instance(i: int) -> bool {
    0 <= i < INSTANCE_LIMIT
}

pub open spec fn valid_sequence(s: int) -> bool {
    0 <= s <= MAX_SEQUENCE
}

/// The id for a timestamp, an instance tag and a sequence number:
/// `(timestamp << 22) | (instance << 12) | sequence` for in-range fields.
pub open spec fn id_of(timestamp: int, instance: int, sequence: int) -> int {
    timestamp * 0x40_0000 + instance * 0x1000 + sequence
}

/// The timestamp field of an id.
pub open spec fn timestamp_of(id: int) -> int {
    id / 0x40_0000
}

/// The instance field of an id.
pub open spec fn instance_of(id: int) -> int {
    (id / 0x1000) % 0x400
}

/// The sequence field of an id.
pub open spec fn sequence_of(id: int) -> int {
    id % 0x1000
}

/// Packs in-range fields into an id.
pub fn encode(timestamp: i64, instance: i32, sequence: u16) -> (id: i64)
    requires
        valid_timestamp(timestamp as int),
        valid_instance(instance as int),
        valid_sequence(sequence as int),
    ensures
        id == id_of(timestamp as int, instance as int, sequence as int),
        id >= 0,
{
    let t = timestamp as u64;
    let i = instance as u64;
    let s = sequence as u64;
    assert((t << 22u64) | (i << 12u64) | s == t * 0x40_0000 + i * 0x1000 + s
        && t * 0x40_0000 + i * 0x1000 + s < 0x8000_0000_0000_0000) by (bit_vector)
        requires
            t < 0x200_0000_0000,
            i < 1024,
            s < 4096,
    ;
    ((t << 22u64) | (i << 12u64) | s) as i64
}

/// Splits a non-negative id into its timestamp, instance and sequence fields.
pub fn decode(id: i64) -> (r: (i64, i32, u16))
    requires
        id >= 0,
    ensures
        r.0 == timestamp_of(id as int),
        r.1 == instance_of(id as int),
        r.2 == sequence_of(id as int),
{
    let v = id as u64;
    assert(v >> 22u64 == v / 0x40_0000 && (v >> 12u64) & 0x3ff == (v / 0x1000) % 0x400 && v & 0xfff
        == v % 0x1000) by (bit_vector);
    let t = v >> 22u64;
    let i = (v >> 12u64) & 0x3ff;
    let s = v & 0xfff;
    (t as i64, i as i32, s as u16)
}

/// Decoding an encoded id gives back the timestamp, instance tag and
/// sequence number it was built from.
pub proof fn lemma_decode_encode(timestamp: int, instance: int, sequence: int)
    requires
        valid_timestamp(timestamp),
        valid_instance(instance),
        valid_sequence(sequence),
    ensures
        timestamp_of(id_of(timestamp, instance, sequence)) == timestamp,
        instance_of(id_of(timestamp, instance, sequence)) == instance,
        sequence_of(id_of(timestamp, instance, sequence)) == sequence,
        0 <= id_of(timestamp, instance, sequence) < 0x8000_0000_0000_0000,
{
    let id = id_of(timestamp, instance, sequence);
    let low = instance * 0x1000 + sequence;
    assert(0 <= low < 0x40_0000);
    vstd::arithmetic::div_mod::lemma_fundamental_div_mod_converse(id, 0x40_0000, timestamp, low);
    vstd::arithmetic::div_mod::lemma_fundamental_div_mod_converse(
        id,
        0x1000,
        timestamp * 0x400 + instance,
        sequence,
    );
    vstd::arithmetic::div_mod::lemma_fundamental_div_mod_converse(
        timestamp * 0x400 + instance,
        0x400,
        timestamp,
        instance,
    );
}

/// Ids order first by timestamp, then by sequence number, for a fixed
/// instance tag.
pub proof fn lemma_id_order(t1: int, s1: int, t2: int, s2: int, instance: int)
    requires
        valid_timestamp(t1),
        valid_timestamp(t2),
        valid_instance(instance),
        valid_sequence(s1),
        valid_sequence(s2),
        t1 < t2 || (t1 == t2 && s1 < s2),
    ensures
        id_of(t1, instance, s1) < id_of(t2, instance, s2),
{
}

} // verus!
