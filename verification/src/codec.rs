//! Packing three fields into an identifier and taking them out again.

use vstd::prelude::*;
use crate::layout::{
    sequence_span, timestamp_unit, worker_span, MAX_SEQUENCE, MAX_TIMESTAMP_DELTA, MAX_WORKER_ID,
    SEQUENCE_BITS, TIMESTAMP_SHIFT,
};

verus! {

/// The identifier that holds the three fields, as a number: the timestamp
/// delta above the worker id above the sequence.
pub open spec fn packed(timestamp_delta: nat, worker_id: nat, sequence: nat) -> nat {
    timestamp_delta * timestamp_unit() + worker_id * sequence_span() + sequence
}

/// Whether three fields fit their widths.
pub open spec fn fields_fit(timestamp_delta: nat, worker_id: nat, sequence: nat) -> bool {
    &&& timestamp_delta <= MAX_TIMESTAMP_DELTA
    &&& worker_id <= MAX_WORKER_ID
    &&& sequence <= MAX_SEQUENCE
}

/// The timestamp field of an identifier.
pub open spec fn timestamp_delta_of(id: u64) -> nat {
    id as nat / timestamp_unit()
}

/// The worker id field of an identifier.
pub open spec fn worker_id_of(id: u64) -> nat {
    (id as nat / sequence_span()) % worker_span()
}

/// The sequence field of an identifier.
pub open spec fn sequence_of(id: u64) -> nat {
    id as nat % sequence_span()
}

/// Packs three fields that fit their widths into an identifier.
pub fn encode(timestamp_delta: u64, worker_id: u16, sequence: u16) -> (id: u64)
    requires
        fields_fit(timestamp_delta as nat, worker_id as nat, sequence as nat),
    ensures
        id == packed(timestamp_delta as nat, worker_id as nat, sequence as nat),
        timestamp_delta_of(id) == timestamp_delta,
        worker_id_of(id) == worker_id,
        sequence_of(id) == sequence,
{
    let worker: u64 = worker_id as u64;
    let low: u64 = sequence as u64;
    let id: u64 = (timestamp_delta << TIMESTAMP_SHIFT) | (worker << SEQUENCE_BITS) | low;
    assert(id == timestamp_delta * 4194304 + worker * 4096 + low) by (bit_vector)
        requires
            id == (timestamp_delta << 22u64) | (worker << 12u64) | low,
            timestamp_delta <= 4398046511103u64,
            worker <= 1023u64,
            low <= 4095u64,
    ;
    proof {
        lemma_unpack(timestamp_delta as nat, worker_id as nat, sequence as nat);
    }
    id
}

/// Takes the timestamp field out of an identifier.
pub fn timestamp_delta(id: u64) -> (delta: u64)
    ensures
        delta == timestamp_delta_of(id),
        delta <= MAX_TIMESTAMP_DELTA,
{
    let delta: u64 = id >> TIMESTAMP_SHIFT;
    assert(delta == id / 4194304 && delta <= 4398046511103u64) by (bit_vector)
        requires
            delta == id >> 22u64,
    ;
    delta
}

/// Takes the worker id field out of an identifier.
pub fn worker_id(id: u64) -> (worker: u16)
    ensures
        worker == worker_id_of(id),
        worker <= MAX_WORKER_ID,
{
    let field: u64 = (id >> SEQUENCE_BITS) & 1023;
    assert(field == (id / 4096) % 1024 && field <= 1023u64) by (bit_vector)
        requires
            field == (id >> 12u64) & 1023u64,
    ;
    field as u16
}

/// Takes the sequence field out of an identifier.
pub fn sequence(id: u64) -> (low: u16)
    ensures
        low == sequence_of(id),
        low <= MAX_SEQUENCE,
{
    let field: u64 = id & 4095;
    assert(field == id % 4096 && field <= 4095u64) by (bit_vector)
        requires
            field == id & 4095u64,
    ;
    field as u16
}

/// Fields that fit their widths pack into 64 bits, and each comes out of the
/// packed number unchanged.
pub proof fn lemma_unpack(timestamp_delta: nat, worker_id: nat, sequence: nat)
    requires
        fields_fit(timestamp_delta, worker_id, sequence),
    ensures
        packed(timestamp_delta, worker_id, sequence) <= u64::MAX,
        timestamp_delta_of(packed(timestamp_delta, worker_id, sequence) as u64) == timestamp_delta,
        worker_id_of(packed(timestamp_delta, worker_id, sequence) as u64) == worker_id,
        sequence_of(packed(timestamp_delta, worker_id, sequence) as u64) == sequence,
{
}

/// Every identifier is the packing of its own three fields, and they fit
/// their widths.
pub proof fn lemma_repack(id: u64)
    ensures
        fields_fit(timestamp_delta_of(id), worker_id_of(id), sequence_of(id)),
        packed(timestamp_delta_of(id), worker_id_of(id), sequence_of(id)) == id,
{
}

/// Whether the first triple of fields comes before the second when both are
/// compared by timestamp, then by worker id, then by sequence.
pub open spec fn fields_before(
    timestamp_delta: nat,
    worker_id: nat,
    sequence: nat,
    other_delta: nat,
    other_worker_id: nat,
    other_sequence: nat,
) -> bool {
    timestamp_delta < other_delta || (timestamp_delta == other_delta && (worker_id
        < other_worker_id || (worker_id == other_worker_id && sequence < other_sequence)))
}

/// Identifiers sort as their fields do: by timestamp, then by worker id,
/// then by sequence. So two triples of fields that fit their widths pack
/// into the same identifier only if they are the same triple.
pub proof fn lemma_packed_order(
    timestamp_delta: nat,
    worker_id: nat,
    sequence: nat,
    other_delta: nat,
    other_worker_id: nat,
    other_sequence: nat,
)
    requires
        fields_fit(timestamp_delta, worker_id, sequence),
        fields_fit(other_delta, other_worker_id, other_sequence),
    ensures
        fields_before(
            timestamp_delta,
            worker_id,
            sequence,
            other_delta,
            other_worker_id,
            other_sequence,
        ) <==> packed(timestamp_delta, worker_id, sequence) < packed(
            other_delta,
            other_worker_id,
            other_sequence,
        ),
        packed(timestamp_delta, worker_id, sequence) == packed(
            other_delta,
            other_worker_id,
            other_sequence,
        ) <==> timestamp_delta == other_delta && worker_id == other_worker_id && sequence
            == other_sequence,
{
}

} // verus!
