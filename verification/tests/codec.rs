use snowflake_id::codec::{encode, sequence, timestamp_delta, worker_id};
use snowflake_id::decoder::{
    assemble_record, decode_snowflake, decode_snowflake_and_format, DecodeError, DecodedRecord,
    Fields, DATETIME_PATTERN,
};
use snowflake_id::layout::{
    DEFAULT_EPOCH, MAX_SEQUENCE, MAX_TIMESTAMP_DELTA, MAX_WORKER_ID, SEQUENCE_BITS,
    TIMESTAMP_BITS, TIMESTAMP_CEILING, TIMESTAMP_SHIFT, WORKER_ID_BITS,
};

#[test]
fn layout_constants_agree() {
    assert_eq!(TIMESTAMP_BITS + WORKER_ID_BITS + SEQUENCE_BITS, 64);
    assert_eq!(TIMESTAMP_SHIFT, WORKER_ID_BITS + SEQUENCE_BITS);
    assert_eq!(MAX_WORKER_ID as u64, (1u64 << WORKER_ID_BITS) - 1);
    assert_eq!(MAX_SEQUENCE as u64, (1u64 << SEQUENCE_BITS) - 1);
    assert_eq!(MAX_TIMESTAMP_DELTA, (1u64 << TIMESTAMP_BITS) - 1);
    assert_eq!(DEFAULT_EPOCH, 1672531200000);
    assert_eq!(TIMESTAMP_CEILING, 253402300800000);
}

#[test]
fn encode_worked_example() {
    assert_eq!(encode(1000, 5, 12), 4194324492);
    assert_eq!(encode(1000, 5, 12), (1000u64 << 22) | (5u64 << 12) | 12);
}

#[test]
fn encode_extremes() {
    assert_eq!(encode(0, 0, 0), 0);
    assert_eq!(encode(MAX_TIMESTAMP_DELTA, MAX_WORKER_ID, MAX_SEQUENCE), u64::MAX);
    assert_eq!(encode(0, 0, MAX_SEQUENCE), 4095);
    assert_eq!(encode(0, 1, 0), 4096);
    assert_eq!(encode(0, MAX_WORKER_ID, 0), 1023 * 4096);
    assert_eq!(encode(1, 0, 0), 4194304);
}

#[test]
fn field_extraction() {
    let id: u64 = 4194324492;
    assert_eq!(timestamp_delta(id), 1000);
    assert_eq!(worker_id(id), 5);
    assert_eq!(sequence(id), 12);
    assert_eq!(timestamp_delta(u64::MAX), MAX_TIMESTAMP_DELTA);
    assert_eq!(worker_id(u64::MAX), MAX_WORKER_ID);
    assert_eq!(sequence(u64::MAX), MAX_SEQUENCE);
}

#[test]
fn decode_worked_example() {
    assert_eq!(
        decode_snowflake(4194324492, 1672531200000),
        Ok(Fields { timestamp_ms: 1672531201000, worker_id: 5, sequence: 12 })
    );
}

#[test]
fn round_trip_samples() {
    let deltas: [u64; 5] = [0, 1, 1000, 86_400_000, MAX_TIMESTAMP_DELTA];
    let workers: [u16; 4] = [0, 1, 512, MAX_WORKER_ID];
    let sequences: [u16; 4] = [0, 1, 2048, MAX_SEQUENCE];
    let epochs: [u64; 3] = [0, DEFAULT_EPOCH, 1_000_000_000_000];
    for delta in deltas {
        for worker in workers {
            for seq in sequences {
                for epoch in epochs {
                    let id = encode(delta, worker, seq);
                    assert_eq!(
                        decode_snowflake(id, epoch),
                        Ok(Fields { timestamp_ms: epoch + delta, worker_id: worker, sequence: seq })
                    );
                }
            }
        }
    }
}

#[test]
fn identifiers_sort_by_timestamp_then_worker_then_sequence() {
    assert!(encode(5, MAX_WORKER_ID, MAX_SEQUENCE) < encode(6, 0, 0));
    assert!(encode(5, 3, MAX_SEQUENCE) < encode(5, 4, 0));
    assert!(encode(5, 3, 7) < encode(5, 3, 8));
}

#[test]
fn decode_overflow_past_ceiling() {
    // The timestamp field alone is plausible; the epoch pushes it past the ceiling.
    let id = encode(1000, 5, 12);
    assert_eq!(decode_snowflake(id, TIMESTAMP_CEILING), Err(DecodeError::DecodeOverflow));
    assert_eq!(decode_snowflake(id, TIMESTAMP_CEILING - 999), Err(DecodeError::DecodeOverflow));
    assert_eq!(
        decode_snowflake(id, TIMESTAMP_CEILING - 1000),
        Ok(Fields { timestamp_ms: TIMESTAMP_CEILING, worker_id: 5, sequence: 12 })
    );
}

#[test]
fn decode_all_bits_set() {
    // The timestamp field is 2^42 - 1 milliseconds, which is in the year 2109.
    assert_eq!(
        decode_snowflake(u64::MAX, 0),
        Ok(Fields { timestamp_ms: 4398046511103, worker_id: 1023, sequence: 4095 })
    );
    assert_eq!(
        decode_snowflake(u64::MAX, DEFAULT_EPOCH),
        Ok(Fields { timestamp_ms: 6070577711103, worker_id: 1023, sequence: 4095 })
    );
}

#[test]
fn decode_overflow_with_mismatched_epoch() {
    let last_good_epoch = TIMESTAMP_CEILING - MAX_TIMESTAMP_DELTA;
    assert_eq!(
        decode_snowflake(u64::MAX, last_good_epoch),
        Ok(Fields { timestamp_ms: TIMESTAMP_CEILING, worker_id: 1023, sequence: 4095 })
    );
    assert_eq!(decode_snowflake(u64::MAX, last_good_epoch + 1), Err(DecodeError::DecodeOverflow));
    assert_eq!(decode_snowflake(0, TIMESTAMP_CEILING + 1), Err(DecodeError::DecodeOverflow));
}

#[test]
fn decode_overflow_when_sum_exceeds_64_bits() {
    assert_eq!(decode_snowflake(encode(1, 0, 0), u64::MAX), Err(DecodeError::DecodeOverflow));
    assert_eq!(decode_snowflake(u64::MAX, u64::MAX), Err(DecodeError::DecodeOverflow));
}

#[test]
fn decode_zero() {
    assert_eq!(decode_snowflake(0, 0), Ok(Fields { timestamp_ms: 0, worker_id: 0, sequence: 0 }));
}

#[test]
fn decode_error_message() {
    assert_eq!(
        DecodeError::DecodeOverflow.message(),
        "Snowflake ID timestamp is too large, potential overflow"
    );
}

#[test]
fn datetime_pattern() {
    assert_eq!(DATETIME_PATTERN, "%Y-%m-%dT%H:%M:%S%.3fZ");
}

#[test]
fn format_worked_example() {
    let record = decode_snowflake_and_format(4194324492, 1672531200000).unwrap();
    assert_eq!(
        record,
        DecodedRecord {
            snowflake_id: 4194324492,
            timestamp: 1672531201000,
            datetime: "2023-01-01T00:00:01.000Z".to_string(),
            worker_id: 5,
            sequence: 12,
        }
    );
}

#[test]
fn format_keeps_milliseconds() {
    let id = encode(947638923004, 1, 2);
    let record = decode_snowflake_and_format(id, 0).unwrap();
    assert_eq!(record.timestamp, 947638923004);
    assert_eq!(record.datetime, "2000-01-12T01:02:03.004Z");
}

#[test]
fn format_unix_epoch() {
    let record = decode_snowflake_and_format(0, 0).unwrap();
    assert_eq!(record.datetime, "1970-01-01T00:00:00.000Z");
}

#[test]
fn format_last_millisecond_of_year_9999() {
    let record = decode_snowflake_and_format(0, TIMESTAMP_CEILING - 1).unwrap();
    assert_eq!(record.datetime, "9999-12-31T23:59:59.999Z");
}

#[test]
fn format_at_ceiling() {
    let record = decode_snowflake_and_format(0, TIMESTAMP_CEILING).unwrap();
    assert_eq!(record.timestamp, TIMESTAMP_CEILING);
    assert_eq!(record.datetime, "+10000-01-01T00:00:00.000Z");
}

#[test]
fn format_overflow() {
    assert_eq!(
        decode_snowflake_and_format(encode(1, 0, 0), TIMESTAMP_CEILING),
        Err(DecodeError::DecodeOverflow)
    );
    assert_eq!(
        decode_snowflake_and_format(u64::MAX, u64::MAX),
        Err(DecodeError::DecodeOverflow)
    );
}

#[test]
fn format_all_bits_set() {
    let record = decode_snowflake_and_format(u64::MAX, 0).unwrap();
    assert_eq!(record.snowflake_id, u64::MAX);
    assert_eq!(record.timestamp, 4398046511103);
    assert_eq!(record.datetime, "2109-05-15T07:35:11.103Z");
    assert_eq!(record.worker_id, 1023);
    assert_eq!(record.sequence, 4095);
}

#[test]
fn assemble_record_keeps_every_part() {
    let fields = Fields { timestamp_ms: 77, worker_id: 3, sequence: 9 };
    let record = assemble_record(123, fields, "some text".to_string());
    assert_eq!(record.snowflake_id, 123);
    assert_eq!(record.timestamp, 77);
    assert_eq!(record.datetime, "some text");
    assert_eq!(record.worker_id, 3);
    assert_eq!(record.sequence, 9);
}
