//! What the consumer makes of each message it receives: the record that it
//! writes to the store, or nothing when the message has no key.
use crate::record::{Record, RecordView};
use crate::store::{after_upsert, lookup, Store};
use vstd::prelude::*;

verus! {

/// The characters that `String::from_utf8_lossy` decodes from `bytes`.
pub uninterp spec fn utf8_lossy_chars(bytes: Seq<u8>) -> Seq<char>;

/// `String::from_utf8_lossy(bytes).to_string()`: the bytes decoded as UTF-8,
/// each invalid sequence replaced by U+FFFD. The decoding depends on the
/// bytes alone; the contract names it and says no more.
#[verifier::external_body]
fn decode_utf8_lossy(bytes: &[u8]) -> (s: String)
    ensures
        s@ == utf8_lossy_chars(bytes@),
{
    String::from_utf8_lossy(bytes).to_string()
}

/// The JSON document that `serde_json::from_slice` reads from `bytes`, or
/// `None` where it reports an error.
pub uninterp spec fn json_document(bytes: Seq<u8>) -> Option<serde_json::Value>;

/// `serde_json::from_slice::<serde_json::Value>`: the document that `bytes`
/// hold, or `None` where they hold no (complete, well-formed) JSON text. The
/// outcome depends on the bytes alone; the contract names it and says no more.
#[verifier::external_body]
fn parse_json(bytes: &[u8]) -> (v: Option<serde_json::Value>)
    ensures
        v == json_document(bytes@),
{
    serde_json::from_slice::<serde_json::Value>(bytes).ok()
}

/// The JSON string whose text is `text`.
pub uninterp spec fn json_string(text: Seq<char>) -> serde_json::Value;

/// `serde_json::Value::String`: the JSON string holding `s`.
#[verifier::external_body]
fn make_json_string(s: String) -> (v: serde_json::Value)
    ensures
        v == json_string(s@),
{
    serde_json::Value::String(s)
}

/// When a message was produced, as the broker reports it.
pub enum MessageTime {
    NotAvailable,
    CreateTime(i64),
    LogAppendTime(i64),
}

/// The milliseconds since the epoch that a [`MessageTime`] gives: none where
/// the broker gave no time, which it also marks with the value -1.
pub open spec fn time_millis(t: MessageTime) -> Option<i64> {
    match t {
        MessageTime::NotAvailable => None,
        MessageTime::CreateTime(ms) => if ms == -1 { None } else { Some(ms) },
        MessageTime::LogAppendTime(ms) => if ms == -1 { None } else { Some(ms) },
    }
}

impl MessageTime {
    /// The milliseconds since the epoch, if the broker gave a time.
    pub fn to_millis(&self) -> (r: Option<i64>)
        ensures
            r == time_millis(*self),
    {
        match self {
            MessageTime::NotAvailable => None,
            MessageTime::CreateTime(ms) => if *ms == -1 { None } else { Some(*ms) },
            MessageTime::LogAppendTime(ms) => if *ms == -1 { None } else { Some(*ms) },
        }
    }
}

/// A message as the consumer received it.
pub struct Message {
    pub key: Option<Vec<u8>>,
    pub payload: Option<Vec<u8>>,
    pub time: MessageTime,
    pub topic: String,
    pub partition: i32,
    pub offset: i64,
}

/// The timestamp a record gets from the time of its message: its milliseconds
/// as a `u64` (a negative number wraps around), or 0 where there is none.
pub open spec fn stamp_of(t: MessageTime) -> u64 {
    match time_millis(t) {
        Some(ms) => ms as u64,
        None => 0,
    }
}

/// The value a record gets from a payload: the JSON document it holds, or,
/// where it holds none, the JSON string of its bytes decoded as UTF-8.
pub open spec fn payload_value(p: Seq<u8>) -> serde_json::Value {
    match json_document(p) {
        Some(v) => v,
        None => json_string(utf8_lossy_chars(p)),
    }
}

/// The record a message becomes, or `None` where it has no key.
pub open spec fn message_record(m: Message) -> Option<RecordView> {
    match m.key {
        None => None,
        Some(k) => Some(
            RecordView {
                key: utf8_lossy_chars(k@),
                value: match m.payload {
                    Some(p) => Some(payload_value(p@)),
                    None => None,
                },
                timestamp: stamp_of(m.time),
                topic: m.topic@,
                partition: m.partition,
                offset: m.offset,
            },
        ),
    }
}

/// The value of a payload: its JSON document, or else its text as a JSON string.
pub fn decode_payload(p: &[u8]) -> (v: serde_json::Value)
    ensures
        v == payload_value(p@),
{
    match parse_json(p) {
        Some(v) => v,
        None => make_json_string(decode_utf8_lossy(p)),
    }
}

/// The timestamp of a record made from a message with time `t`.
pub fn record_timestamp(t: &MessageTime) -> (ms: u64)
    ensures
        ms == stamp_of(*t),
{
    match t.to_millis() {
        Some(ms) => ms as u64,
        None => 0,
    }
}

/// The record a message becomes: `None` for a message without a key, which
/// the consumer skips; a tombstone for a message without a payload.
pub fn record_from_message(m: Message) -> (r: Option<Record>)
    ensures
        r is None <==> m.key is None,
        r matches Some(rec) ==> message_record(m) == Some(rec@),
{
    let ghost m0 = m;
    let timestamp = record_timestamp(&m.time);
    match m.key {
        None => None,
        Some(k) => {
            let key = decode_utf8_lossy(k.as_slice());
            let value = match m.payload {
                Some(p) => Some(decode_payload(p.as_slice())),
                None => None,
            };
            let rec = Record {
                key,
                value,
                timestamp,
                topic: m.topic,
                partition: m.partition,
                offset: m.offset,
            };
            proof {
                assert(message_record(m0) == Some(rec@));
            }
            Some(rec)
        },
    }
}

impl Store {
    /// Handles one message: a message with a key becomes a record that is
    /// written to the store (`true`); one without a key is skipped (`false`)
    /// and leaves the store as it was.
    pub fn consume(&mut self, m: Message) -> (stored: bool)
        requires
            old(self).well_formed(),
        ensures
            final(self).well_formed(),
            stored <==> m.key is Some,
            match message_record(m) {
                Some(r) => final(self)@ == after_upsert(old(self)@, r),
                None => final(self)@ == old(self)@,
            },
    {
        match record_from_message(m) {
            Some(rec) => {
                self.upsert(rec);
                true
            },
            None => false,
        }
    }
}

/// A keyed message without a payload is a tombstone: once consumed, a read of
/// its key finds nothing.
pub proof fn law_empty_payload_deletes(m: Map<Seq<char>, RecordView>, msg: Message)
    requires
        msg.key is Some,
        msg.payload is None,
    ensures
        message_record(msg) matches Some(r) && lookup(after_upsert(m, r), r.key) is None,
{
}

/// A keyed message with a payload is stored: once consumed, a read of its key
/// gives back the record it became.
pub proof fn law_payload_is_stored(m: Map<Seq<char>, RecordView>, msg: Message)
    requires
        msg.key is Some,
        msg.payload is Some,
    ensures
        message_record(msg) matches Some(r) && lookup(after_upsert(m, r), r.key) == Some(r),
{
}

/// The record a keyed message becomes carries the message's own fields: its
/// topic, partition and offset, a value exactly when it has a payload, and as
/// timestamp the time the broker gave (create time or log-append time alike,
/// as a `u64`), or 0 where the broker gave none (no time, or the value -1).
pub proof fn law_record_carries_message_fields(m: Message)
    requires
        m.key is Some,
    ensures
        message_record(m) matches Some(r) && {
            &&& r.topic == m.topic@
            &&& r.partition == m.partition
            &&& r.offset == m.offset
            &&& (r.value is Some <==> m.payload is Some)
            &&& r.timestamp == match m.time {
                MessageTime::NotAvailable => 0u64,
                MessageTime::CreateTime(ms) => if ms == -1 { 0u64 } else { ms as u64 },
                MessageTime::LogAppendTime(ms) => if ms == -1 { 0u64 } else { ms as u64 },
            }
        },
{
}

/// A payload that holds a JSON document is stored as exactly that document;
/// only a payload that holds none is stored as the JSON string of its text,
/// decoded as UTF-8 with invalid bytes replaced.
pub proof fn law_payload_json_first(p: Seq<u8>)
    ensures
        json_document(p) matches Some(v) ==> payload_value(p) == v,
        json_document(p) is None ==> payload_value(p) == json_string(utf8_lossy_chars(p)),
{
}

/// A keyed message with a payload holding a JSON document is stored with that
/// document as its value, under the decoded key.
pub proof fn law_message_keeps_json_document(m: Message, k: Vec<u8>, p: Vec<u8>, v: serde_json::Value)
    requires
        m.key == Some(k),
        m.payload == Some(p),
        json_document(p@) == Some(v),
    ensures
        message_record(m) matches Some(r) && r.key == utf8_lossy_chars(k@) && r.value == Some(v),
{
}

} // verus!
