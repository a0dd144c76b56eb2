//! What the REST API does with the store, request by request.
use crate::clock::{epoch_millis, now_millis};
use crate::record::{Record, RecordView};
use crate::store::{lookup, record_keys, Store};
use std::time::SystemTime;
use vstd::prelude::*;

verus! {

/// The body of a request that creates or updates a record.
pub struct CreateRequest {
    pub key: String,
    pub value: serde_json::Value,
    pub topic: String,
    pub partition: i32,
}

/// Why a request was refused.
#[derive(Debug, PartialEq, Eq, Structural)]
pub enum ApiError {
    /// The store holds no record under the key (HTTP 404).
    NotFound,
    /// The system clock reads before the Unix epoch, so no timestamp can be
    /// taken; nothing was written.
    ClockBeforeEpoch,
}

/// The offset of a record written through the API rather than read from a
/// partition.
pub const API_OFFSET: i64 = -1;

/// The record that a create request makes, stamped with `timestamp`.
pub open spec fn requested_record(req: CreateRequest, timestamp: u64) -> RecordView {
    RecordView {
        key: req.key@,
        value: Some(req.value),
        timestamp,
        topic: req.topic@,
        partition: req.partition,
        offset: API_OFFSET,
    }
}

/// The record that a create request makes, stamped with `timestamp`.
pub fn record_from_request(req: CreateRequest, timestamp: u64) -> (r: Record)
    ensures
        r@ == requested_record(req, timestamp),
{
    Record {
        key: req.key,
        value: Some(req.value),
        timestamp,
        topic: req.topic,
        partition: req.partition,
        offset: API_OFFSET,
    }
}

/// `GET /records`: every record of the store, once each.
pub fn list_records(store: &Store) -> (rs: Vec<Record>)
    requires
        store.well_formed(),
    ensures
        record_keys(rs@).no_duplicates(),
        record_keys(rs@).to_set() == store@.dom(),
        forall|i: int|
            0 <= i < rs@.len() ==> lookup(store@, #[trigger] rs@[i]@.key) == Some(rs@[i]@),
{
    store.list()
}

/// `GET /records/:key`: the record under `key`, or `NotFound`.
pub fn get_record(store: &Store, key: &str) -> (r: Result<Record, ApiError>)
    ensures
        r matches Ok(rec) ==> lookup(store@, key@) == Some(rec@),
        r is Err ==> r == Err::<Record, ApiError>(ApiError::NotFound) && lookup(store@, key@) is None,
{
    match store.get(key) {
        Some(rec) => Ok(rec),
        None => Err(ApiError::NotFound),
    }
}

/// `POST /records` with a request stamped at `timestamp`: the record is
/// written to the store, which now maps its key to it, and handed back.
pub fn create_record_at(store: &mut Store, req: CreateRequest, timestamp: u64) -> (r: Record)
    requires
        old(store).well_formed(),
    ensures
        r@ == requested_record(req, timestamp),
        final(store)@ == old(store)@.insert(req.key@, r@),
        final(store).well_formed(),
{
    let rec = record_from_request(req, timestamp);
    let stored = rec.clone();
    store.upsert(stored);
    rec
}

/// `POST /records`: the record, stamped with the current time, is written to
/// the store, which now maps its key to it, and handed back. Where the clock
/// reads before the Unix epoch there is no time to stamp it with: the result
/// is `ClockBeforeEpoch`, and the store is left as it was.
pub fn create_record(store: &mut Store, req: CreateRequest) -> (r: Result<Record, ApiError>)
    requires
        old(store).well_formed(),
    ensures
        final(store).well_formed(),
        r matches Ok(rec) ==> rec@ == requested_record(req, rec@.timestamp)
            && final(store)@ == old(store)@.insert(req.key@, rec@)
            && exists|t: SystemTime| #[trigger] epoch_millis(t) == Some(rec@.timestamp),
        r is Err ==> r == Err::<Record, ApiError>(ApiError::ClockBeforeEpoch)
            && final(store)@ == old(store)@
            && exists|t: SystemTime| #[trigger] epoch_millis(t) is None,
{
    match now_millis() {
        Some(ms) => Ok(create_record_at(store, req, ms)),
        None => Err(ApiError::ClockBeforeEpoch),
    }
}

/// `DELETE /records/:key`: where the store holds a record under `key`, a
/// tombstone for it (same topic and partition, offset -1) is written, which
/// removes the key; otherwise `NotFound`. Where the tombstone cannot be
/// stamped because the clock reads before the Unix epoch, the result is
/// `ClockBeforeEpoch`. On either error the store is left as it was.
pub fn delete_record(store: &mut Store, key: &str) -> (r: Result<(), ApiError>)
    requires
        old(store).well_formed(),
    ensures
        final(store).well_formed(),
        r == Err::<(), ApiError>(ApiError::NotFound) <==> !old(store)@.contains_key(key@),
        r is Ok ==> final(store)@ == old(store)@.remove(key@),
        r is Err ==> final(store)@ == old(store)@,
        r == Err::<(), ApiError>(ApiError::ClockBeforeEpoch) ==> exists|t: SystemTime|
            #[trigger] epoch_millis(t) is None,
{
    match store.get(key) {
        Some(rec) => {
            match store.create_tombstone(key, rec.topic.as_str(), rec.partition, API_OFFSET) {
                Some(tombstone) => {
                    store.upsert(tombstone);
                    Ok(())
                },
                None => Err(ApiError::ClockBeforeEpoch),
            }
        },
        None => Err(ApiError::NotFound),
    }
}

/// A read after a create gives back the created record.
pub proof fn law_get_after_create(m: Map<Seq<char>, RecordView>, req: CreateRequest, timestamp: u64)
    ensures
        lookup(m.insert(req.key@, requested_record(req, timestamp)), req.key@) == Some(
            requested_record(req, timestamp),
        ),
{
}

/// A read after a delete finds nothing.
pub proof fn law_get_after_delete(m: Map<Seq<char>, RecordView>, key: Seq<char>)
    ensures
        lookup(m.remove(key), key) is None,
{
}

/// Deleting a key that was created on a store without it puts the store back
/// where it was.
pub proof fn law_delete_undoes_create(
    m: Map<Seq<char>, RecordView>,
    req: CreateRequest,
    timestamp: u64,
)
    requires
        !m.contains_key(req.key@),
    ensures
        m.insert(req.key@, requested_record(req, timestamp)).remove(req.key@) == m,
{
    assert(m.insert(req.key@, requested_record(req, timestamp)).remove(req.key@) =~= m);
}

} // verus!
