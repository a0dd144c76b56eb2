//! A record of the store: the latest message seen for one key.
use vstd::prelude::*;

verus! {

/// A JSON document. Records carry it through unread; the store only asks
/// whether a record has one (a live record) or not (a tombstone).
#[verifier::external_type_specification]
#[verifier::external_body]
pub struct ExJsonValue(serde_json::Value);

/// `<serde_json::Value as Clone>::clone`. The impl is derived, so the copy is
/// the same document as the original; the contract says that the two are equal.
#[verifier::external_body]
fn clone_json(v: &serde_json::Value) -> (c: serde_json::Value)
    ensures
        c == *v,
{
    v.clone()
}

/// One record: a key, its JSON value (`None` marks a tombstone), when it was
/// produced (milliseconds since the Unix epoch), and where it came from.
#[derive(Debug)]
pub struct Record {
    pub key: String,
    pub value: Option<serde_json::Value>,
    pub timestamp: u64,
    pub topic: String,
    pub partition: i32,
    pub offset: i64,
}

/// The mathematical content of a [`Record`].
pub struct RecordView {
    pub key: Seq<char>,
    pub value: Option<serde_json::Value>,
    pub timestamp: u64,
    pub topic: Seq<char>,
    pub partition: i32,
    pub offset: i64,
}

impl View for Record {
    type V = RecordView;

    open spec fn view(&self) -> RecordView {
        RecordView {
            key: self.key@,
            value: self.value,
            timestamp: self.timestamp,
            topic: self.topic@,
            partition: self.partition,
            offset: self.offset,
        }
    }
}

impl RecordView {
    /// A tombstone asks the store to forget its key.
    pub open spec fn is_tombstone(self) -> bool {
        self.value is None
    }
}

/// Copies an optional JSON document.
fn clone_json_option(v: &Option<serde_json::Value>) -> (c: Option<serde_json::Value>)
    ensures
        c == *v,
{
    match v {
        Some(j) => Some(clone_json(j)),
        None => None,
    }
}

impl Clone for Record {
    fn clone(&self) -> (c: Self)
        ensures
            c@ == self@,
    {
        Record {
            key: self.key.clone(),
            value: clone_json_option(&self.value),
            timestamp: self.timestamp,
            topic: self.topic.clone(),
            partition: self.partition,
            offset: self.offset,
        }
    }
}

impl Record {
    /// Whether this record is a tombstone.
    pub fn is_tombstone(&self) -> (b: bool)
        ensures
            b == self@.is_tombstone(),
    {
        self.value.is_none()
    }
}

/// The view of the tombstone for `key` that [`tombstone_at`] builds.
pub open spec fn tombstone_view(
    key: Seq<char>,
    topic: Seq<char>,
    partition: i32,
    offset: i64,
    timestamp: u64,
) -> RecordView {
    RecordView { key, value: None, timestamp, topic, partition, offset }
}

/// The tombstone for `key`, stamped with `timestamp`.
pub fn tombstone_at(key: &str, topic: &str, partition: i32, offset: i64, timestamp: u64) -> (r:
    Record)
    ensures
        r@ == tombstone_view(key@, topic@, partition, offset, timestamp),
{
    Record {
        key: String::from_str(key),
        value: None,
        timestamp,
        topic: String::from_str(topic),
        partition,
        offset,
    }
}

} // verus!
