use kafql_store::api::{
    create_record, create_record_at, delete_record, get_record, list_records, record_from_request,
    ApiError, CreateRequest, API_OFFSET,
};
use kafql_store::store::Store;
use serde_json::Value;

fn json(text: &str) -> Value {
    serde_json::from_str(text).unwrap()
}

fn request(key: &str, value: &str) -> CreateRequest {
    CreateRequest {
        key: key.to_string(),
        value: json(value),
        topic: "users".to_string(),
        partition: 0,
    }
}

#[test]
fn create_then_get() {
    let mut store = Store::new();
    let rec = create_record(&mut store, request("user-123", r#"{"name": "Alice"}"#)).unwrap();
    assert_eq!(rec.key, "user-123");
    assert_eq!(rec.value, Some(json(r#"{"name": "Alice"}"#)));
    assert_eq!(rec.topic, "users");
    assert_eq!(rec.partition, 0);
    assert_eq!(rec.offset, -1);
    assert!(rec.timestamp > 1_577_836_800_000);
    let got = get_record(&store, "user-123").unwrap();
    assert_eq!(got.value, rec.value);
    assert_eq!(got.timestamp, rec.timestamp);
}

#[test]
fn create_at_given_time() {
    let mut store = Store::new();
    let rec = create_record_at(&mut store, request("k", "5"), 1_710_000_000_000);
    assert_eq!(rec.timestamp, 1_710_000_000_000);
    assert_eq!(rec.offset, API_OFFSET);
    assert_eq!(get_record(&store, "k").unwrap().timestamp, 1_710_000_000_000);
}

#[test]
fn create_replaces_existing_record() {
    let mut store = Store::new();
    create_record_at(&mut store, request("k", "1"), 1);
    create_record_at(&mut store, request("k", "2"), 2);
    let all = list_records(&store);
    assert_eq!(all.len(), 1);
    assert_eq!(all[0].value, Some(json("2")));
}

#[test]
fn get_missing_is_not_found() {
    let store = Store::new();
    assert_eq!(get_record(&store, "nope").unwrap_err(), ApiError::NotFound);
}

#[test]
fn delete_existing_then_get_is_not_found() {
    let mut store = Store::new();
    create_record_at(&mut store, request("a", "1"), 1);
    create_record_at(&mut store, request("b", "2"), 1);
    assert_eq!(delete_record(&mut store, "a"), Ok(()));
    assert_eq!(get_record(&store, "a").unwrap_err(), ApiError::NotFound);
    assert_eq!(get_record(&store, "b").unwrap().value, Some(json("2")));
}

#[test]
fn delete_missing_is_not_found_and_changes_nothing() {
    let mut store = Store::new();
    create_record_at(&mut store, request("a", "1"), 1);
    assert_eq!(delete_record(&mut store, "zzz"), Err(ApiError::NotFound));
    assert_eq!(list_records(&store).len(), 1);
}

#[test]
fn delete_twice_second_is_not_found() {
    let mut store = Store::new();
    create_record_at(&mut store, request("a", "1"), 1);
    assert_eq!(delete_record(&mut store, "a"), Ok(()));
    assert_eq!(delete_record(&mut store, "a"), Err(ApiError::NotFound));
}

#[test]
fn delete_undoes_create_on_fresh_key() {
    let mut store = Store::new();
    create_record_at(&mut store, request("keep", "0"), 1);
    create_record_at(&mut store, request("tmp", "1"), 2);
    delete_record(&mut store, "tmp").unwrap();
    let keys: Vec<String> = list_records(&store).into_iter().map(|r| r.key).collect();
    assert_eq!(keys, vec!["keep".to_string()]);
}

#[test]
fn record_from_request_fields() {
    let r = record_from_request(
        CreateRequest {
            key: "k".to_string(),
            value: json("null"),
            topic: "t".to_string(),
            partition: 4,
        },
        9,
    );
    assert_eq!(r.key, "k");
    assert_eq!(r.value, Some(Value::Null));
    assert_eq!(r.topic, "t");
    assert_eq!(r.partition, 4);
    assert_eq!(r.offset, -1);
    assert_eq!(r.timestamp, 9);
}
