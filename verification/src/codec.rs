//! The byte record in which an optional duration is kept.
//!
//! A record is one tag byte, `0` for an unknown duration and `1` for a known
//! one, and after a `1` the duration in whole milliseconds as eight
//! little-endian bytes.

use vstd::prelude::*;
use vstd::bytes::{
    lemma_auto_spec_u64_to_from_le_bytes, spec_u64_from_le_bytes, spec_u64_to_le_bytes,
    u64_from_le_bytes, u64_to_le_bytes,
};
use vstd::slice::slice_subrange;
use crate::timespan::{span_nanos, TimeSpan};

verus! {

/// Tag of a record that holds no duration.
pub const TAG_UNKNOWN: u8 = 0;

/// Tag of a record that holds a duration.
pub const TAG_KNOWN: u8 = 1;

/// Length in bytes of a record that holds a duration.
pub const KNOWN_RECORD_LEN: usize = 9;

/// The whole milliseconds in `nanos` nanoseconds, held at `u64::MAX`.
pub open spec fn saturated_millis(nanos: nat) -> u64 {
    if nanos / 1_000_000 > u64::MAX as nat {
        u64::MAX
    } else {
        (nanos / 1_000_000) as u64
    }
}

/// The record of an optional duration given in nanoseconds.
pub open spec fn record_of(duration: Option<nat>) -> Seq<u8> {
    match duration {
        None => seq![0u8],
        Some(nanos) => seq![1u8] + spec_u64_to_le_bytes(saturated_millis(nanos)),
    }
}

/// Whether `raw` has the shape of a record that holds a duration.
pub open spec fn is_known_record(raw: Seq<u8>) -> bool {
    raw.len() == 9 && raw[0] == 1
}

/// The duration in nanoseconds that a record holds; every byte sequence
/// that is not a record of a known duration reads as unknown.
pub open spec fn duration_of(raw: Seq<u8>) -> Option<nat> {
    if is_known_record(raw) {
        Some(spec_u64_from_le_bytes(raw.subrange(1, 9)) as nat * 1_000_000)
    } else {
        None
    }
}

/// Writes the record of `duration`: the whole milliseconds of a known
/// duration, held at `u64::MAX` when there are more.
pub fn encode_duration(duration: Option<TimeSpan>) -> (bytes: Vec<u8>)
    ensures
        bytes@ == record_of(span_nanos(duration)),
        duration is None ==> bytes@ == seq![0u8],
        duration is Some ==> bytes@.len() == 9 && bytes@[0] == 1,
{
    match duration {
        Some(value) => {
            let total: u128 = value.as_millis();
            let millis: u64 = if total > u64::MAX as u128 {
                u64::MAX
            } else {
                total as u64
            };
            assert(millis == saturated_millis(value@));
            let mut bytes: Vec<u8> = Vec::with_capacity(KNOWN_RECORD_LEN);
            bytes.push(TAG_KNOWN);
            let mut payload = u64_to_le_bytes(millis);
            bytes.append(&mut payload);
            assert(bytes@ == seq![1u8] + spec_u64_to_le_bytes(millis));
            bytes
        },
        None => {
            let mut bytes: Vec<u8> = Vec::new();
            bytes.push(TAG_UNKNOWN);
            assert(bytes@ == seq![0u8]);
            bytes
        },
    }
}

/// Reads a record. Anything but the tag `1` followed by exactly eight bytes
/// reads as an unknown duration.
pub fn decode_duration(raw: &[u8]) -> (duration: Option<TimeSpan>)
    ensures
        span_nanos(duration) == duration_of(raw@),
        duration is Some <==> raw@.len() == 9 && raw@[0] == 1,
{
    if raw.len() != KNOWN_RECORD_LEN || raw[0] != TAG_KNOWN {
        return None;
    }
    let payload = slice_subrange(raw, 1, KNOWN_RECORD_LEN);
    let millis: u64 = u64_from_le_bytes(payload);
    Some(TimeSpan::from_millis(millis))
}

/// Reading back a written record gives the duration at millisecond
/// precision: its whole milliseconds, held at `u64::MAX`. A duration of whole
/// milliseconds that fit in 64 bits reads back as itself.
pub proof fn lemma_round_trip(nanos: nat)
    ensures
        duration_of(record_of(Some(nanos))) == Some(saturated_millis(nanos) as nat * 1_000_000),
        nanos / 1_000_000 <= u64::MAX as nat ==> duration_of(record_of(Some(nanos))) == Some(
            (nanos / 1_000_000) * 1_000_000,
        ),
        nanos / 1_000_000 <= u64::MAX as nat && nanos % 1_000_000 == 0 ==> duration_of(
            record_of(Some(nanos)),
        ) == Some(nanos),
{
    lemma_auto_spec_u64_to_from_le_bytes();
    let millis = saturated_millis(nanos);
    let raw = record_of(Some(nanos));
    assert(spec_u64_to_le_bytes(millis).len() == 8);
    assert(raw.len() == 9);
    assert(raw[0] == 1);
    assert(raw.subrange(1, 9) == spec_u64_to_le_bytes(millis));
}

/// The record of an unknown duration reads back as unknown.
pub proof fn lemma_round_trip_unknown()
    ensures
        duration_of(record_of(None)) is None,
{
    assert(record_of(None).len() == 1);
}

/// A byte sequence whose first byte is not `1`, or whose length is not nine,
/// reads as an unknown duration; every other one reads as a known duration.
pub proof fn lemma_corrupt_reads_unknown(raw: Seq<u8>)
    ensures
        raw.len() == 0 || raw[0] != 1 || raw.len() != 9 <==> duration_of(raw) is None,
{
}

} // verus!
