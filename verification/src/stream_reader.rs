//! Messages of a NATS JetStream stream, the errors of reading one, and the
//! decisions that reading takes: how many messages to read, how a failed
//! stream lookup is reported, and how a delivered message becomes a
//! `RawMessage`.
use vstd::prelude::*;

use crate::datetime::{format_rfc3339, rfc3339_text};
use vstd::utf8::{decode_utf8, decode_utf8_encode_utf8, valid_utf8};

use crate::json::{base64, base64_encode, compact_of, json_compact, opt_view, quote, string_literal, utf8};
use crate::output::entry_text;
use crate::text::utf8_text;

verus! {

/// A raw message fetched from a NATS JetStream stream.
///
/// The payload is held as JSON text: the message's data itself when it is
/// a JSON document, and otherwise a JSON string holding the data in base64.
/// It is read as JSON whenever the message is written or filtered.
#[derive(Debug, Clone, PartialEq, Eq)]
pub struct RawMessage {
    pub subject: String,
    pub payload: String,
    pub timestamp: Option<String>,
    pub sequence: u64,
}

/// The mathematical value of a `RawMessage`.
pub struct MessageModel {
    pub subject: Seq<char>,
    pub payload: Seq<char>,
    pub timestamp: Option<Seq<char>>,
    pub sequence: u64,
}

impl View for RawMessage {
    type V = MessageModel;

    open spec fn view(&self) -> MessageModel {
        MessageModel {
            subject: self.subject@,
            payload: self.payload@,
            timestamp: opt_view(self.timestamp),
            sequence: self.sequence,
        }
    }
}

/// Whether a message's payload is JSON text, as every message built from a
/// delivery has (`message_from_delivery`): such a message can always be
/// written and filtered.
pub open spec fn payload_is_json(m: MessageModel) -> bool {
    json_compact(utf8(m.payload)) is Some
}

/// Errors that can occur when reading from a stream.
#[derive(Debug, Clone, PartialEq, Eq)]
pub enum Error {
    ConnectionFailed { url: String, reason: String },
    StreamNotFound { name: String },
    StreamAccess { name: String, reason: String },
    Consumer(String),
    Message(String),
}

/// The text by which an error is reported.
pub open spec fn error_text(e: &Error) -> Seq<char> {
    match e {
        Error::ConnectionFailed { url, reason } => "Failed to connect to NATS at '"@ + url@
            + "': "@ + reason@,
        Error::StreamNotFound { name } => "Stream '"@ + name@ + "' not found"@,
        Error::StreamAccess { name, reason } => "Failed to access stream '"@ + name@ + "': "@
            + reason@,
        Error::Consumer(reason) => "Failed to create consumer: "@ + reason@,
        Error::Message(reason) => "Failed to read message: "@ + reason@,
    }
}

impl Error {
    /// The text by which this error is reported.
    pub fn message(&self) -> (r: String)
        ensures
            r@ == error_text(self),
    {
        let mut s = String::new();
        match self {
            Error::ConnectionFailed { url, reason } => {
                s.append("Failed to connect to NATS at '");
                s.append(url.as_str());
                s.append("': ");
                s.append(reason.as_str());
            },
            Error::StreamNotFound { name } => {
                s.append("Stream '");
                s.append(name.as_str());
                s.append("' not found");
            },
            Error::StreamAccess { name, reason } => {
                s.append("Failed to access stream '");
                s.append(name.as_str());
                s.append("': ");
                s.append(reason.as_str());
            },
            Error::Consumer(reason) => {
                s.append("Failed to create consumer: ");
                s.append(reason.as_str());
            },
            Error::Message(reason) => {
                s.append("Failed to read message: ");
                s.append(reason.as_str());
            },
        }
        s
    }
}

/// The JetStream error code for a stream that does not exist.
pub open spec fn stream_not_found_code() -> u64 {
    10059
}

/// Whether a JetStream error code says that the stream does not exist.
///
/// Trusted: compares with `async_nats::jetstream::ErrorCode::STREAM_NOT_FOUND`,
/// which the crate defines as `ErrorCode(10059)`.
#[verifier::external_body]
pub(crate) fn is_stream_not_found(code: u64) -> (r: bool)
    ensures
        r == (code == stream_not_found_code()),
{
    async_nats::jetstream::ErrorCode(code) == async_nats::jetstream::ErrorCode::STREAM_NOT_FOUND
}

/// The error for a failed lookup of the stream `name`: the stream is
/// reported missing when JetStream answered with its code for a missing
/// stream, and otherwise the lookup is reported as failed with `reason`.
pub fn stream_lookup_error(name: &str, jetstream_code: Option<u64>, reason: &str) -> (r: Error)
    ensures
        jetstream_code == Some(stream_not_found_code()) ==> r is StreamNotFound
            && r->StreamNotFound_name@ == name@,
        jetstream_code != Some(stream_not_found_code()) ==> r is StreamAccess
            && r->StreamAccess_name@ == name@ && r->StreamAccess_reason@ == reason@,
{
    let not_found = match jetstream_code {
        Some(code) => is_stream_not_found(code),
        None => false,
    };
    if not_found {
        Error::StreamNotFound { name: name.to_owned() }
    } else {
        Error::StreamAccess { name: name.to_owned(), reason: reason.to_owned() }
    }
}

/// What reading a stream does next, once the stream is found.
#[derive(Debug, Clone, Copy, PartialEq, Eq)]
pub enum ReadPlan {
    /// The number of messages is unknown: ask the stream for its count.
    AskStreamCount,
    /// There is nothing to read: the reading ends at once, empty.
    Nothing,
    /// Read this many messages (more than zero) and stop.
    Read(u64),
}

/// The plan for a count of messages known to be `total`.
pub open spec fn plan_for_total(total: u64) -> ReadPlan {
    if total == 0 {
        ReadPlan::Nothing
    } else {
        ReadPlan::Read(total)
    }
}

/// The plan for a requested `count`: the requested number when there is
/// one, and otherwise a question to the stream for its message count.
pub fn plan_read(count: Option<u64>) -> (r: ReadPlan)
    ensures
        r == match count {
            Some(n) => plan_for_total(n),
            None => ReadPlan::AskStreamCount,
        },
        count matches Some(n) ==> (n > 0 ==> r == ReadPlan::Read(n)),
        r is Nothing <==> count == Some(0u64),
        r is AskStreamCount <==> count is None,
{
    match count {
        Some(n) => plan_for_stream_count(n),
        None => ReadPlan::AskStreamCount,
    }
}

/// The plan once the stream has reported that it holds `messages` messages.
pub fn plan_for_stream_count(messages: u64) -> (r: ReadPlan)
    ensures
        r == plan_for_total(messages),
        messages > 0 ==> r == ReadPlan::Read(messages),
        r is Nothing <==> messages == 0,
{
    if messages == 0 {
        ReadPlan::Nothing
    } else {
        ReadPlan::Read(messages)
    }
}

/// The subject on which an ordered consumer delivers, for a unique token.
pub fn deliver_subject(unique: &str) -> (r: String)
    ensures
        r@ == "_INBOX.dump."@ + unique@,
{
    let mut s = String::new();
    s.append("_INBOX.dump.");
    s.append(unique);
    s
}

/// The JSON text held for a message's data: the data itself when it is a
/// JSON document (and so valid UTF-8), and otherwise a JSON string of its
/// base64.
pub open spec fn payload_text(data: Seq<u8>) -> Seq<char> {
    if json_compact(data) is Some && valid_utf8(data) {
        decode_utf8(data)
    } else {
        string_literal(base64(data))
    }
}

/// The payload text, given the data's own text when the data is a JSON
/// document: that text, or else a JSON string of the data's base64, which
/// is itself a JSON document.
pub fn payload_or_base64(json_text: Option<String>, data: &[u8]) -> (r: String)
    ensures
        r@ == match json_text {
            Some(t) => t@,
            None => string_literal(base64(data@)),
        },
        json_text is None ==> json_compact(utf8(r@)) == Some(r@),
{
    match json_text {
        Some(text) => text,
        None => {
            let encoded = base64_encode(data);
            quote(encoded.as_str())
        },
    }
}

/// Attempts to read a message's data as JSON, keeping its text, and falls
/// back to a JSON string of its base64. Either way the payload is a JSON
/// document.
pub fn parse_payload(data: &[u8]) -> (r: String)
    ensures
        r@ == payload_text(data@),
        json_compact(data@) is Some && valid_utf8(data@) ==> r@ == decode_utf8(data@) && utf8(r@)
            == data@,
        !(json_compact(data@) is Some && valid_utf8(data@)) ==> r@ == string_literal(
            base64(data@),
        ),
        json_compact(utf8(r@)) is Some,
{
    let json_text = if compact_of(data).is_some() {
        utf8_text(data)
    } else {
        None
    };
    let r = payload_or_base64(json_text, data);
    proof {
        if json_compact(data@) is Some && valid_utf8(data@) {
            decode_utf8_encode_utf8(data@);
        }
    }
    r
}

/// The publication time and stream sequence of a delivered message, as
/// JetStream reports them: the time in nanoseconds since the Unix epoch.
#[derive(Debug, Clone, Copy, PartialEq, Eq)]
pub struct DeliveryInfo {
    pub published_nanos: i128,
    pub stream_sequence: u64,
}

/// The timestamp and sequence number of a message: the publication time
/// as RFC 3339 (when it can be written) and the stream sequence when the
/// message carries its delivery information, and no timestamp with
/// sequence 0 when it does not.
pub fn extract_metadata(info: Option<DeliveryInfo>) -> (r: (Option<String>, u64))
    ensures
        match info {
            Some(i) => r.1 == i.stream_sequence && match r.0 {
                Some(t) => rfc3339_text(i.published_nanos as int) == Some(t@),
                None => rfc3339_text(i.published_nanos as int) is None,
            },
            None => r.0 is None && r.1 == 0,
        },
{
    match info {
        Some(i) => (format_rfc3339(i.published_nanos), i.stream_sequence),
        None => (None, 0),
    }
}

/// The `RawMessage` for a delivered message with the given subject, data
/// and delivery information.
pub fn message_from_delivery(subject: &str, data: &[u8], info: Option<DeliveryInfo>) -> (r:
    RawMessage)
    ensures
        r.subject@ == subject@,
        r.payload@ == payload_text(data@),
        json_compact(data@) is Some && valid_utf8(data@) ==> r.payload@ == decode_utf8(data@),
        !(json_compact(data@) is Some && valid_utf8(data@)) ==> r.payload@ == string_literal(
            base64(data@),
        ),
        payload_is_json(r@),
        entry_text(r@, false) is Some,
        entry_text(r@, true) is Some,
        match info {
            Some(i) => r.sequence == i.stream_sequence && match r.timestamp {
                Some(t) => rfc3339_text(i.published_nanos as int) == Some(t@),
                None => rfc3339_text(i.published_nanos as int) is None,
            },
            None => r.timestamp is None && r.sequence == 0,
        },
{
    let payload = parse_payload(data);
    let (timestamp, sequence) = extract_metadata(info);
    RawMessage { subject: subject.to_owned(), payload, timestamp, sequence }
}

/// A known number of messages is read in full: any positive total is read
/// to its last message, and only an empty stream (or a request for no
/// messages) is not read at all.
pub proof fn law_positive_total_is_read_in_full(total: u64)
    ensures
        total > 0 ==> plan_for_total(total) == ReadPlan::Read(total),
        plan_for_total(total) is Nothing <==> total == 0,
        !(plan_for_total(total) is AskStreamCount),
        plan_for_total(total) matches ReadPlan::Read(n) ==> n == total,
{
}

/// Data that `serde_json` reads as a JSON document (and that is UTF-8) is
/// kept as its own text, whatever characters it holds, so that it encodes
/// back to the very same bytes; any other data becomes the JSON string of
/// its base64.
pub proof fn law_json_data_is_kept_verbatim(data: Seq<u8>)
    ensures
        json_compact(data) is Some && valid_utf8(data) ==> payload_text(data) == decode_utf8(data)
            && utf8(payload_text(data)) == data,
        !(json_compact(data) is Some && valid_utf8(data)) ==> payload_text(data) == string_literal(
            base64(data),
        ),
{
    if json_compact(data) is Some && valid_utf8(data) {
        decode_utf8_encode_utf8(data);
    }
}

} // verus!
