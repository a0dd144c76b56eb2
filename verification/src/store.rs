//! The store: one live record per key, with log compaction (a newer record
//! replaces an older one) and tombstoning (a record without a value removes
//! its key).
use crate::clock::{epoch_millis, now_millis};
use crate::record::{tombstone_at, tombstone_view, Record, RecordView};
use dashmap::DashMap;
use std::time::SystemTime;
use vstd::prelude::*;

verus! {

/// The concurrent hash map that holds the records.
#[verifier::external_type_specification]
#[verifier::external_body]
#[verifier::reject_recursive_types(K)]
#[verifier::reject_recursive_types(V)]
#[verifier::reject_recursive_types(S)]
pub struct ExDashMap<K, V, S>(DashMap<K, V, S>);

/// What a `DashMap<String, Record>` holds: for each key (by its characters),
/// the record stored under it (by its view).
pub uninterp spec fn table_contents(m: DashMap<String, Record>) -> Map<Seq<char>, RecordView>;

/// The map of a store that holds nothing.
pub open spec fn no_records() -> Map<Seq<char>, RecordView> {
    Map::empty()
}

/// `DashMap::new`: a map that holds nothing.
#[verifier::external_body]
fn table_new() -> (m: DashMap<String, Record>)
    ensures
        table_contents(m) == no_records(),
{
    DashMap::new()
}

/// `DashMap::insert`: afterwards `key` maps to `value` and every other key keeps
/// its record; the record that `key` held before, if any, is handed back.
/// The call takes `&self` in the crate; taking `&mut` here means that no one
/// else can see the map while it changes.
#[verifier::external_body]
fn table_insert(m: &mut DashMap<String, Record>, key: String, value: Record) -> (prev: Option<
    Record,
>)
    ensures
        table_contents(*final(m)) == table_contents(*old(m)).insert(key@, value@),
        prev is Some <==> table_contents(*old(m)).contains_key(key@),
        prev matches Some(p) ==> p@ == table_contents(*old(m))[key@],
{
    m.insert(key, value)
}

/// `DashMap::remove`: afterwards `key` maps to nothing and every other key keeps
/// its record; the entry that `key` held before, if any, is handed back.
#[verifier::external_body]
fn table_remove(m: &mut DashMap<String, Record>, key: &str) -> (prev: Option<(String, Record)>)
    ensures
        table_contents(*final(m)) == table_contents(*old(m)).remove(key@),
        prev is Some <==> table_contents(*old(m)).contains_key(key@),
        prev matches Some(p) ==> p.0@ == key@ && p.1@ == table_contents(*old(m))[key@],
{
    m.remove(key)
}

/// `DashMap::get`, with the record that it finds copied out by
/// `Record::clone` before the read guard is dropped.
#[verifier::external_body]
fn table_get(m: &DashMap<String, Record>, key: &str) -> (r: Option<Record>)
    ensures
        r is Some <==> table_contents(*m).contains_key(key@),
        r matches Some(rec) ==> rec@ == table_contents(*m)[key@],
{
    m.get(key).map(|entry| entry.value().clone())
}

/// The keys of the records `rs`, in order.
pub open spec fn record_keys(rs: Seq<Record>) -> Seq<Seq<char>> {
    rs.map_values(|r: Record| r@.key)
}

/// `rs` holds the records of `m` under keys `keys`, in that order.
pub open spec fn lists_under_keys(
    rs: Seq<Record>,
    m: Map<Seq<char>, RecordView>,
    keys: Seq<Seq<char>>,
) -> bool {
    &&& keys.len() == rs.len()
    &&& keys.no_duplicates()
    &&& keys.to_set() == m.dom()
    &&& forall|i: int| 0 <= i < keys.len() ==> #[trigger] rs[i]@ == m[keys[i]]
}

/// `rs` holds each entry of `m` exactly once, in some order.
pub open spec fn lists_each_entry_once(rs: Seq<Record>, m: Map<Seq<char>, RecordView>) -> bool {
    exists|keys: Seq<Seq<char>>| lists_under_keys(rs, m, keys)
}

/// `DashMap::iter`, with each record it yields copied out by `Record::clone`.
/// The map yields every entry exactly once, shard by shard, in an order that
/// depends on the hashes of the keys (and so on the hasher's random seed):
/// the contract says that the records come under distinct keys that cover the
/// map, and nothing of their order.
#[verifier::external_body]
fn table_records(m: &DashMap<String, Record>) -> (rs: Vec<Record>)
    ensures
        lists_each_entry_once(rs@, table_contents(*m)),
{
    m.iter().map(|entry| entry.value().clone()).collect()
}

/// The store of records. It holds one record per key, and only live ones:
/// every stored record has a value, and is stored under its own key.
pub struct Store {
    data: DashMap<String, Record>,
}

/// What the store holds: a map from key to the latest live record for it.
pub open spec fn well_formed_table(m: Map<Seq<char>, RecordView>) -> bool {
    &&& m.dom().finite()
    &&& forall|k: Seq<char>| #[trigger]
        m.contains_key(k) ==> m[k].key == k && m[k].value is Some
}

/// The map of a store after `r` was written to it: a live record replaces
/// whatever its key held, a tombstone removes its key.
pub open spec fn after_upsert(m: Map<Seq<char>, RecordView>, r: RecordView) -> Map<
    Seq<char>,
    RecordView,
> {
    if r.is_tombstone() {
        m.remove(r.key)
    } else {
        m.insert(r.key, r)
    }
}

/// What a read of `key` gives back from the map `m`.
pub open spec fn lookup(m: Map<Seq<char>, RecordView>, key: Seq<char>) -> Option<RecordView> {
    if m.contains_key(key) {
        Some(m[key])
    } else {
        None
    }
}

impl View for Store {
    type V = Map<Seq<char>, RecordView>;

    closed spec fn view(&self) -> Map<Seq<char>, RecordView> {
        table_contents(self.data)
    }
}

impl Store {
    /// The store's invariant: its map is well formed.
    pub open spec fn well_formed(&self) -> bool {
        well_formed_table(self@)
    }

    /// An empty store.
    pub fn new() -> (s: Self)
        ensures
            s@ == no_records(),
            s.well_formed(),
    {
        let data = table_new();
        proof {
            assert(table_contents(data).dom() =~= Set::<Seq<char>>::empty());
        }
        Store { data }
    }

    /// Writes `record`: a live record replaces whatever its key held (log
    /// compaction), a tombstone removes its key.
    pub fn upsert(&mut self, record: Record)
        requires
            old(self).well_formed(),
        ensures
            final(self)@ == after_upsert(old(self)@, record@),
            final(self).well_formed(),
    {
        if record.is_tombstone() {
            let _ = table_remove(&mut self.data, record.key.as_str());
            proof {
                assert(forall|k: Seq<char>| #[trigger] table_contents(self.data).contains_key(k)
                    ==> table_contents(old(self).data).contains_key(k));
            }
        } else {
            let key = record.key.clone();
            let _ = table_insert(&mut self.data, key, record);
        }
    }

    /// The record stored under `key`, if there is one.
    pub fn get(&self, key: &str) -> (r: Option<Record>)
        ensures
            r matches Some(rec) ==> lookup(self@, key@) == Some(rec@),
            r is None ==> lookup(self@, key@) is None,
    {
        table_get(&self.data, key)
    }

    /// Every record of the store, once each, in no particular order.
    pub fn list(&self) -> (rs: Vec<Record>)
        requires
            self.well_formed(),
        ensures
            record_keys(rs@).no_duplicates(),
            record_keys(rs@).to_set() == self@.dom(),
            forall|i: int| 0 <= i < rs@.len() ==> lookup(self@, #[trigger] rs@[i]@.key) == Some(rs@[i]@),
    {
        let rs = table_records(&self.data);
        proof {
            let m = table_contents(self.data);
            let keys = choose|keys: Seq<Seq<char>>| lists_under_keys(rs@, m, keys);
            assert forall|i: int| 0 <= i < keys.len() implies m.contains_key(keys[i]) by {
                assert(keys.to_set().contains(keys[i]));
            }
            assert(record_keys(rs@) =~= keys) by {
                assert forall|i: int| 0 <= i < keys.len() implies record_keys(rs@)[i] == keys[i] by {
                    assert(rs@[i]@ == m[keys[i]]);
                    assert(m.contains_key(keys[i]));
                }
            }
            assert forall|i: int| 0 <= i < rs@.len() implies lookup(self@, #[trigger] rs@[i]@.key) == Some(rs@[i]@) by {
                assert(rs@[i]@ == m[keys[i]]);
                assert(m.contains_key(keys[i]));
            }
        }
        rs
    }

    /// A tombstone for `key`, stamped with the current time (see
    /// [`crate::clock::now_millis`]). It does not touch the store. Where the
    /// clock reads before the Unix epoch there is no time to stamp it with,
    /// and the result is `None`.
    pub fn create_tombstone(&self, key: &str, topic: &str, partition: i32, offset: i64) -> (r:
        Option<Record>)
        ensures
            r matches Some(rec) ==> rec@ == tombstone_view(key@, topic@, partition, offset, rec@.timestamp)
                && exists|t: SystemTime| #[trigger] epoch_millis(t) == Some(rec@.timestamp),
            r is None ==> exists|t: SystemTime| #[trigger] epoch_millis(t) is None,
    {
        match now_millis() {
            Some(ms) => Some(tombstone_at(key, topic, partition, offset, ms)),
            None => None,
        }
    }
}

/// Read your write: once a live record is written, a read of its key gives
/// back exactly that record.
pub proof fn law_read_your_write(m: Map<Seq<char>, RecordView>, r: RecordView)
    requires
        r.value is Some,
    ensures
        lookup(after_upsert(m, r), r.key) == Some(r),
{
}

/// Tombstoning: once a tombstone is written, a read of its key finds nothing.
pub proof fn law_tombstone_removes(m: Map<Seq<char>, RecordView>, r: RecordView)
    requires
        r.value is None,
    ensures
        lookup(after_upsert(m, r), r.key) is None,
{
}

/// A write touches its own key only: a read of any other key gives what it
/// gave before.
pub proof fn law_other_keys_untouched(m: Map<Seq<char>, RecordView>, r: RecordView, k: Seq<char>)
    requires
        k != r.key,
    ensures
        lookup(after_upsert(m, r), k) == lookup(m, k),
{
}

/// Log compaction: of two writes to one key only the later counts; the store
/// ends as if the earlier had never happened.
pub proof fn law_latest_wins(m: Map<Seq<char>, RecordView>, r1: RecordView, r2: RecordView)
    requires
        r1.key == r2.key,
    ensures
        after_upsert(after_upsert(m, r1), r2) == after_upsert(m, r2),
{
    assert(after_upsert(after_upsert(m, r1), r2) =~= after_upsert(m, r2));
}

/// Writing the same record twice leaves the store as writing it once.
pub proof fn law_upsert_idempotent(m: Map<Seq<char>, RecordView>, r: RecordView)
    ensures
        after_upsert(after_upsert(m, r), r) == after_upsert(m, r),
{
    law_latest_wins(m, r, r);
}

/// Every write keeps the store well formed: only live records, each under its
/// own key.
pub proof fn law_upsert_keeps_well_formed(m: Map<Seq<char>, RecordView>, r: RecordView)
    requires
        well_formed_table(m),
    ensures
        well_formed_table(after_upsert(m, r)),
{
}

/// A tombstone undoes the write of a live record to a key that the store did
/// not hold: the store is back where it was.
pub proof fn law_tombstone_undoes_insert(
    m: Map<Seq<char>, RecordView>,
    r: RecordView,
    t: RecordView,
)
    requires
        !m.contains_key(r.key),
        r.value is Some,
        t.key == r.key,
        t.value is None,
    ensures
        after_upsert(after_upsert(m, r), t) == m,
{
    assert(after_upsert(after_upsert(m, r), t) =~= m);
}

} // verus!
