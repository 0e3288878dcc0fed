//! The requests that the decoding and the generating service answer, and
//! their answers, as text. Reading from a connection and writing to it is
//! left to the caller, and so is minting the identifiers that a request
//! asks for.

use vstd::prelude::*;
use crate::decoder::{
    decode_snowflake_and_format, decoded, is_record_of, utc_text, DecodedRecord, DATETIME_PATTERN,
};
use crate::text::{
    before_key, chars_of, cut_before_key, cut_first_word, cut_value, decimal, decimal_text,
    first_occurrence, first_word, has_prefix, lemma_first_occurrence, occurs_at, parse_decimal,
    starts_with, value_of, write_decimal,
};

verus! {

/// What a request to the decoding service asks for.
#[derive(Clone, Copy, Debug, PartialEq, Eq, Structural)]
pub enum DecodeRequest {
    /// To decode this identifier.
    Decode(u64),
    /// To decode something that is no number, or none that 64 bits hold.
    InvalidId,
    /// To decode, without saying what: the value of `id` is empty or
    /// nothing but white space.
    MissingId,
    /// Something that the service does not offer.
    NotFound,
}

/// Why the decoding service refuses a request.
#[derive(Clone, Copy, Debug, PartialEq, Eq, Structural)]
pub enum Refusal {
    /// The service does not offer what was asked for.
    NotFound,
    /// The request does not say what to decode.
    MissingId,
    /// What was to be decoded is no number, or none that 64 bits hold.
    InvalidId,
    /// The number names an instant that no identifier could carry.
    DecodeOverflow,
}

/// How a request fared, as the first line of a response says it.
#[derive(Clone, Copy, Debug, PartialEq, Eq, Structural)]
pub enum Status {
    Success,
    BadRequest,
    NotFound,
}

/// What the decoding service answers to a request.
#[derive(Debug, PartialEq, Eq)]
pub enum DecodeAnswer {
    /// The decoded identifier.
    Record(DecodedRecord),
    /// A refusal.
    Refused(Refusal),
}

/// What the value of `id` is in a request to the decoding service: what
/// stands behind the route, up to the next `id=` or the end of the request.
pub open spec fn id_value(request: Seq<char>) -> Seq<char> {
    before_key(request.skip("GET /?id="@.len() as int), "id="@)
}

/// What a request to the decoding service asks for: the first word of the
/// value of `id`, read as a number, where the request begins with the
/// service's route.
pub open spec fn decode_request(request: Seq<char>) -> DecodeRequest {
    if !has_prefix(request, "GET /?id="@) {
        DecodeRequest::NotFound
    } else {
        match first_word(id_value(request)) {
            None => DecodeRequest::MissingId,
            Some(word) => match decimal(word) {
                Some(id) => DecodeRequest::Decode(id),
                None => DecodeRequest::InvalidId,
            },
        }
    }
}

/// How many identifiers a request to the generating service asks for: the
/// first word of the value of `count`, read as a number; one where the
/// request names no count or none that can be read.
pub open spec fn requested_count(request: Seq<char>) -> u64 {
    match value_of(request, "count="@) {
        None => 1,
        Some(value) => match first_word(value) {
            None => 1,
            Some(word) => match decimal(word) {
                Some(count) => count,
                None => 1,
            },
        },
    }
}

/// How many identifiers a request to the generating service asks for, where
/// the request begins with the service's route.
pub open spec fn generate_request(request: Seq<char>) -> Option<u64> {
    if has_prefix(request, "GET /"@) {
        Some(requested_count(request))
    } else {
        None
    }
}

/// The first line of a response.
pub open spec fn status_line(status: Status) -> Seq<char> {
    match status {
        Status::Success => "HTTP/1.1 200 OK"@,
        Status::BadRequest => "HTTP/1.1 400 Bad Request"@,
        Status::NotFound => "HTTP/1.1 404 Not Found"@,
    }
}

/// A refusal in words.
pub open spec fn refusal_text(refusal: Refusal) -> Seq<char> {
    match refusal {
        Refusal::NotFound => "Not Found"@,
        Refusal::MissingId => "Missing id parameter"@,
        Refusal::InvalidId => "Invalid Snowflake ID"@,
        Refusal::DecodeOverflow => "Snowflake ID timestamp is too large, potential overflow"@,
    }
}

/// Identifiers written in decimal, one to a line, with no line end after
/// the last.
pub open spec fn id_lines(ids: Seq<u64>) -> Seq<char>
    decreases ids.len(),
{
    if ids.len() == 0 {
        Seq::empty()
    } else if ids.len() == 1 {
        decimal_text(ids[0] as nat)
    } else {
        id_lines(ids.drop_last()) + "\n"@ + decimal_text(ids.last() as nat)
    }
}

impl Status {
    /// The first line of a response that reports this status.
    pub fn line(&self) -> (text: &'static str)
        ensures
            text@ == status_line(*self),
    {
        match self {
            Status::Success => "HTTP/1.1 200 OK",
            Status::BadRequest => "HTTP/1.1 400 Bad Request",
            Status::NotFound => "HTTP/1.1 404 Not Found",
        }
    }
}

impl Refusal {
    /// The status that reports this refusal: `NotFound` for a request that
    /// the service does not offer, `BadRequest` for every other.
    pub fn status(&self) -> (status: Status)
        ensures
            status == if *self == Refusal::NotFound {
                Status::NotFound
            } else {
                Status::BadRequest
            },
    {
        match self {
            Refusal::NotFound => Status::NotFound,
            Refusal::MissingId => Status::BadRequest,
            Refusal::InvalidId => Status::BadRequest,
            Refusal::DecodeOverflow => Status::BadRequest,
        }
    }

    /// The refusal in words, for a person to read.
    pub fn message(&self) -> (text: &'static str)
        ensures
            text@ == refusal_text(*self),
    {
        match self {
            Refusal::NotFound => "Not Found",
            Refusal::MissingId => "Missing id parameter",
            Refusal::InvalidId => "Invalid Snowflake ID",
            Refusal::DecodeOverflow => "Snowflake ID timestamp is too large, potential overflow",
        }
    }
}

/// Reads a request to the decoding service.
pub fn parse_decode_request(request: &str) -> (asked: DecodeRequest)
    ensures
        asked == decode_request(request@),
{
    let text = chars_of(request);
    let route = chars_of("GET /?id=");
    let key = chars_of("id=");
    if !starts_with(text.as_slice(), route.as_slice()) {
        return DecodeRequest::NotFound;
    }
    let end: usize = text.len();
    let rest = &text.as_slice()[route.len()..end];
    assert(rest@ =~= request@.skip("GET /?id="@.len() as int));
    let value = cut_before_key(rest, key.as_slice());
    match cut_first_word(value) {
        None => DecodeRequest::MissingId,
        Some(word) => match parse_decimal(word) {
            Some(id) => DecodeRequest::Decode(id),
            None => DecodeRequest::InvalidId,
        },
    }
}

/// Reads a request to the generating service: how many identifiers it asks
/// for, or `None` where it asks for something that the service does not
/// offer.
pub fn parse_generate_request(request: &str) -> (asked: Option<u64>)
    ensures
        asked == generate_request(request@),
{
    let text = chars_of(request);
    let route = chars_of("GET /");
    let key = chars_of("count=");
    if !starts_with(text.as_slice(), route.as_slice()) {
        return None;
    }
    let count: u64 = match cut_value(text.as_slice(), key.as_slice()) {
        None => 1,
        Some(value) => match cut_first_word(value) {
            None => 1,
            Some(word) => match parse_decimal(word) {
                Some(count) => count,
                None => 1,
            },
        },
    };
    Some(count)
}

/// Answers a request to the decoding service, for the epoch that the service
/// runs with: the decoded identifier that the request names, or a refusal
/// that says what is wrong with the request.
pub fn answer_decode_request(request: &str, epoch: u64) -> (answer: DecodeAnswer)
    ensures
        match decode_request(request@) {
            DecodeRequest::NotFound => answer == DecodeAnswer::Refused(Refusal::NotFound),
            DecodeRequest::InvalidId => answer == DecodeAnswer::Refused(Refusal::InvalidId),
            DecodeRequest::MissingId => answer == DecodeAnswer::Refused(Refusal::MissingId),
            DecodeRequest::Decode(id) => match decoded(id, epoch) {
                Ok(fields) => answer matches DecodeAnswer::Record(record) && is_record_of(
                    record,
                    id,
                    fields,
                    utc_text(fields.timestamp_ms, DATETIME_PATTERN@),
                ),
                Err(_) => answer == DecodeAnswer::Refused(Refusal::DecodeOverflow),
            },
        },
{
    match parse_decode_request(request) {
        DecodeRequest::NotFound => DecodeAnswer::Refused(Refusal::NotFound),
        DecodeRequest::InvalidId => DecodeAnswer::Refused(Refusal::InvalidId),
        DecodeRequest::MissingId => DecodeAnswer::Refused(Refusal::MissingId),
        DecodeRequest::Decode(id) => match decode_snowflake_and_format(id, epoch) {
            Ok(record) => DecodeAnswer::Record(record),
            Err(_) => DecodeAnswer::Refused(Refusal::DecodeOverflow),
        },
    }
}

/// Writes a response of the decoding service: the status line, the line
/// that says that a JSON document follows, an empty line, and the document.
pub fn json_response(status: Status, document: &str) -> (response: String)
    ensures
        response@ == status_line(status) + "\r\nContent-Type: application/json\r\n\r\n"@
            + document@,
{
    let mut response = status.line().to_owned();
    response.append("\r\nContent-Type: application/json\r\n\r\n");
    response.append(document);
    response
}

/// Writes the response of the generating service to a request that it does
/// not offer.
pub fn not_found_response() -> (response: String)
    ensures
        response@ == status_line(Status::NotFound) + "\r\n\r\n"@,
{
    let mut response = Status::NotFound.line().to_owned();
    response.append("\r\n\r\n");
    response
}

/// Writes the response of the generating service that hands out
/// identifiers: the status line, an empty line, and the identifiers in
/// decimal, one to a line.
pub fn generate_response(ids: &[u64]) -> (response: String)
    ensures
        response@ == status_line(Status::Success) + "\r\n\r\n"@ + id_lines(ids@),
{
    let mut response = Status::Success.line().to_owned();
    response.append("\r\n\r\n");
    let ghost head = response@;
    let mut i: usize = 0;
    while i < ids.len()
        invariant
            i <= ids.len(),
            head == status_line(Status::Success) + "\r\n\r\n"@,
            response@ == head + id_lines(ids@.take(i as int)),
        decreases ids.len() - i,
    {
        if i > 0 {
            response.append("\n");
        }
        let number = write_decimal(ids[i]);
        response.append(number.as_str());
        proof {
            let longer = ids@.take(i + 1);
            assert(longer.drop_last() =~= ids@.take(i as int));
            assert(longer.last() == ids@[i as int]);
            assert(response@ =~= head + id_lines(longer));
        }
        i += 1;
    }
    assert(ids@.take(i as int) =~= ids@);
    response
}

/// A request that begins with the decoding service's route names an `id`:
/// the value that the service reads is the value of the first `id=` in the
/// request.
pub proof fn lemma_id_is_named(request: Seq<char>)
    requires
        has_prefix(request, "GET /?id="@),
    ensures
        value_of(request, "id="@) == Some(id_value(request)),
{
    reveal_strlit("GET /?id=");
    reveal_strlit("id=");
    let route = "GET /?id="@;
    let key = "id="@;
    assert(request.subrange(6, 9) =~= key) by {
        assert forall|i: int| 0 <= i < 3 implies request.subrange(6, 9)[i] == key[i] by {
            assert(request.take(9)[i + 6] == route[i + 6]);
        }
    }
    assert(occurs_at(request, key, 6));
    lemma_first_occurrence(request, key, 0);
    let at = first_occurrence(request, key, 0)->Some_0;
    assert(at == 6) by {
        if at < 6 {
            assert(request.subrange(at, at + 3)[0] == key[0]);
            assert(request.take(9)[at] == route[at]);
        }
    }
}

} // verus!
