//! The bit layout of an identifier and the constants that follow from it.

use vstd::prelude::*;

verus! {

/// Width of the worker id field.
pub const WORKER_ID_BITS: u64 = 10;

/// Width of the sequence field.
pub const SEQUENCE_BITS: u64 = 12;

/// Width of the timestamp field: what the other two fields leave of 64 bits.
pub const TIMESTAMP_BITS: u64 = 42;

/// Position of the lowest bit of the timestamp field.
pub const TIMESTAMP_SHIFT: u64 = 22;

/// Largest worker id that fits its field.
pub const MAX_WORKER_ID: u16 = 1023;

/// Largest sequence number that fits its field.
pub const MAX_SEQUENCE: u16 = 4095;

/// Largest number of milliseconds since the epoch that fits the timestamp field.
pub const MAX_TIMESTAMP_DELTA: u64 = 4398046511103;

/// The epoch used where a deployment names none: 2023-01-01T00:00:00Z, in
/// milliseconds since 1970-01-01T00:00:00Z.
pub const DEFAULT_EPOCH: u64 = 1672531200000;

/// The latest instant a decoded timestamp may name, in milliseconds since
/// 1970-01-01T00:00:00Z: the first millisecond after the year 9999.
pub const TIMESTAMP_CEILING: u64 = 253402300800000;

/// Number of distinct values of the sequence field, 2^12.
pub open spec fn sequence_span() -> nat {
    4096
}

/// Number of distinct values of the worker id field, 2^10.
pub open spec fn worker_span() -> nat {
    1024
}

/// Weight of one timestamp unit in an identifier, 2^22.
pub open spec fn timestamp_unit() -> nat {
    4194304
}

/// The widths add up to the 64 bits of an identifier, and the limits and
/// spans are the powers of two that the widths name.
pub proof fn lemma_layout_consistent()
    ensures
        TIMESTAMP_BITS + WORKER_ID_BITS + SEQUENCE_BITS == 64,
        TIMESTAMP_SHIFT == WORKER_ID_BITS + SEQUENCE_BITS,
        sequence_span() == 1u64 << SEQUENCE_BITS,
        worker_span() == 1u64 << WORKER_ID_BITS,
        timestamp_unit() == 1u64 << TIMESTAMP_SHIFT,
        timestamp_unit() == worker_span() * sequence_span(),
        MAX_SEQUENCE + 1 == sequence_span(),
        MAX_WORKER_ID + 1 == worker_span(),
        MAX_TIMESTAMP_DELTA + 1 == 1u64 << TIMESTAMP_BITS,
        (MAX_TIMESTAMP_DELTA + 1) * timestamp_unit() == u64::MAX + 1,
{
    assert(1u64 << 12u64 == 4096) by (bit_vector);
    assert(1u64 << 10u64 == 1024) by (bit_vector);
    assert(1u64 << 22u64 == 4194304) by (bit_vector);
    assert(1u64 << 42u64 == 4398046511104) by (bit_vector);
}

} // verus!
