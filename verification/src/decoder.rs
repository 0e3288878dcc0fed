//! Decoding an identifier into its fields, with a plausibility check on the
//! timestamp it names, and rendering that timestamp as a calendar date.

use vstd::prelude::*;
use crate::codec::{
    fields_fit, lemma_unpack, packed, sequence, sequence_of, timestamp_delta, timestamp_delta_of,
    worker_id, worker_id_of,
};
use crate::layout::TIMESTAMP_CEILING;

verus! {

/// What an identifier says: when it was minted, by whom, and which of that
/// worker's identifiers of that millisecond it is.
#[derive(Clone, Copy, Debug, PartialEq, Eq, Structural)]
pub struct Fields {
    /// Milliseconds since 1970-01-01T00:00:00Z.
    pub timestamp_ms: u64,
    pub worker_id: u16,
    pub sequence: u16,
}

/// Why an identifier could not be decoded.
#[derive(Clone, Copy, Debug, PartialEq, Eq, Structural)]
pub enum DecodeError {
    /// The timestamp field, counted from the epoch, names an instant after
    /// `TIMESTAMP_CEILING`: the number is no identifier of this epoch.
    DecodeOverflow,
}

/// A decoded identifier together with its timestamp as a calendar date.
#[derive(Debug, PartialEq, Eq)]
pub struct DecodedRecord {
    pub snowflake_id: u64,
    /// Milliseconds since 1970-01-01T00:00:00Z.
    pub timestamp: u64,
    /// `timestamp` as an ISO 8601 date and time in UTC with milliseconds,
    /// written after `DATETIME_PATTERN`.
    pub datetime: String,
    pub worker_id: u16,
    pub sequence: u16,
}

/// The pattern, in chrono's strftime syntax, after which a record's date is
/// written. It is that of ISO 8601: the date, a `T`, the time of day with
/// milliseconds, and a `Z` for UTC, as in `2023-01-01T00:00:01.000Z`.
pub const DATETIME_PATTERN: &'static str = "%Y-%m-%dT%H:%M:%S%.3fZ";

/// The instant an identifier names under an epoch, in milliseconds since
/// 1970-01-01T00:00:00Z. It may lie beyond what 64 bits hold.
pub open spec fn instant_of(id: u64, epoch: u64) -> nat {
    timestamp_delta_of(id) + epoch as nat
}

/// Whether the instant an identifier names under an epoch is one that a real
/// identifier could carry.
pub open spec fn plausible(id: u64, epoch: u64) -> bool {
    instant_of(id, epoch) <= TIMESTAMP_CEILING
}

/// What decoding an identifier under an epoch gives.
pub open spec fn decoded(id: u64, epoch: u64) -> Result<Fields, DecodeError> {
    if plausible(id, epoch) {
        Ok(
            Fields {
                timestamp_ms: instant_of(id, epoch) as u64,
                worker_id: worker_id_of(id) as u16,
                sequence: sequence_of(id) as u16,
            },
        )
    } else {
        Err(DecodeError::DecodeOverflow)
    }
}

impl DecodeError {
    /// The error in words, for a person to read.
    pub fn message(&self) -> (text: String)
        ensures
            text@ == "Snowflake ID timestamp is too large, potential overflow"@,
    {
        match self {
            DecodeError::DecodeOverflow => {
                "Snowflake ID timestamp is too large, potential overflow".to_owned()
            },
        }
    }
}

/// Decodes an identifier under an epoch. Fails exactly when the instant it
/// names lies after `TIMESTAMP_CEILING`, also where that instant is beyond
/// what 64 bits hold.
pub fn decode_snowflake(snowflake_id: u64, epoch: u64) -> (result: Result<Fields, DecodeError>)
    ensures
        result == decoded(snowflake_id, epoch),
{
    let delta: u64 = timestamp_delta(snowflake_id);
    match delta.checked_add(epoch) {
        Some(timestamp_ms) => {
            if timestamp_ms > TIMESTAMP_CEILING {
                Err(DecodeError::DecodeOverflow)
            } else {
                Ok(
                    Fields {
                        timestamp_ms,
                        worker_id: worker_id(snowflake_id),
                        sequence: sequence(snowflake_id),
                    },
                )
            }
        },
        None => Err(DecodeError::DecodeOverflow),
    }
}

/// The text that chrono writes for an instant, given in milliseconds since
/// 1970-01-01T00:00:00Z, as a UTC date and time after a strftime pattern.
pub uninterp spec fn utc_text(timestamp_ms: u64, pattern: Seq<char>) -> Seq<char>;

/// Calls chrono: turns the instant into a `DateTime<Utc>`, as its `From<SystemTime>`
/// does, and formats it with `DateTime::format` after the pattern.
///
/// Trusted: that the text depends on the instant and the pattern alone, which
/// holds since UTC needs no zone data and the pattern names no locale. Nothing
/// is claimed of what the text is. The call is confined to `DATETIME_PATTERN`,
/// which chrono accepts, and to instants up to `TIMESTAMP_CEILING`, far inside
/// the years chrono can represent, so neither conversion nor formatting fails.
#[verifier::external_body]
fn render_utc(timestamp_ms: u64, pattern: &str) -> (text: String)
    requires
        timestamp_ms <= TIMESTAMP_CEILING,
        pattern@ == DATETIME_PATTERN@,
    ensures
        text@ == utc_text(timestamp_ms, pattern@),
{
    let instant = std::time::UNIX_EPOCH + std::time::Duration::from_millis(timestamp_ms);
    chrono::DateTime::<chrono::Utc>::from(instant).format(pattern).to_string()
}

/// Whether a record is the one that belongs to an identifier, its fields and
/// the text of its date.
pub open spec fn is_record_of(
    record: DecodedRecord,
    snowflake_id: u64,
    fields: Fields,
    datetime: Seq<char>,
) -> bool {
    &&& record.snowflake_id == snowflake_id
    &&& record.timestamp == fields.timestamp_ms
    &&& record.datetime@ == datetime
    &&& record.worker_id == fields.worker_id
    &&& record.sequence == fields.sequence
}

/// Puts an identifier, its decoded fields and the text of its date together.
pub fn assemble_record(snowflake_id: u64, fields: Fields, datetime: String) -> (record:
    DecodedRecord)
    ensures
        is_record_of(record, snowflake_id, fields, datetime@),
{
    DecodedRecord {
        snowflake_id,
        timestamp: fields.timestamp_ms,
        datetime,
        worker_id: fields.worker_id,
        sequence: fields.sequence,
    }
}

/// Decodes an identifier under an epoch and writes its timestamp as an
/// ISO 8601 date and time in UTC. Fails exactly when `decode_snowflake`
/// does, with the same error.
pub fn decode_snowflake_and_format(snowflake_id: u64, epoch: u64) -> (result: Result<
    DecodedRecord,
    DecodeError,
>)
    ensures
        match decoded(snowflake_id, epoch) {
            Ok(fields) => result matches Ok(record) && is_record_of(
                record,
                snowflake_id,
                fields,
                utc_text(fields.timestamp_ms, DATETIME_PATTERN@),
            ),
            Err(error) => result == Err::<DecodedRecord, DecodeError>(error),
        },
{
    match decode_snowflake(snowflake_id, epoch) {
        Ok(fields) => {
            let datetime = render_utc(fields.timestamp_ms, DATETIME_PATTERN);
            Ok(assemble_record(snowflake_id, fields, datetime))
        },
        Err(error) => Err(error),
    }
}

/// Decoding undoes encoding: fields that fit their widths, packed into an
/// identifier and decoded under an epoch, come back with the epoch added to
/// the timestamp, provided the instant that this names is plausible; where it
/// is not, decoding fails.
pub proof fn lemma_round_trip(timestamp_delta: u64, worker_id: u16, sequence: u16, epoch: u64)
    requires
        fields_fit(timestamp_delta as nat, worker_id as nat, sequence as nat),
    ensures
        decoded(packed(timestamp_delta as nat, worker_id as nat, sequence as nat) as u64, epoch)
            == if epoch + timestamp_delta <= TIMESTAMP_CEILING {
            Ok::<Fields, DecodeError>(
                Fields { timestamp_ms: (epoch + timestamp_delta) as u64, worker_id, sequence },
            )
        } else {
            Err::<Fields, DecodeError>(DecodeError::DecodeOverflow)
        },
{
    lemma_unpack(timestamp_delta as nat, worker_id as nat, sequence as nat);
}

} // verus!
