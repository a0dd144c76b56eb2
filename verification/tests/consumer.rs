use kafql_store::consumer::{decode_payload, record_from_message, record_timestamp, Message, MessageTime};
use kafql_store::store::Store;
use serde_json::Value;

fn json(text: &str) -> Value {
    serde_json::from_str(text).unwrap()
}

fn message(key: Option<&[u8]>, payload: Option<&[u8]>, time: MessageTime) -> Message {
    Message {
        key: key.map(|k| k.to_vec()),
        payload: payload.map(|p| p.to_vec()),
        time,
        topic: "test".to_string(),
        partition: 1,
        offset: 42,
    }
}

#[test]
fn json_payload_is_parsed() {
    assert_eq!(decode_payload(br#"{"hello":"world"}"#), json(r#"{"hello":"world"}"#));
    assert_eq!(decode_payload(b"12"), json("12"));
}

#[test]
fn non_json_payload_becomes_string() {
    assert_eq!(decode_payload(b"hello"), Value::String("hello".to_string()));
    assert_eq!(decode_payload(b""), Value::String(String::new()));
    assert_eq!(decode_payload(b"{\"a\":1"), Value::String("{\"a\":1".to_string()));
}

#[test]
fn invalid_utf8_payload_is_replaced() {
    assert_eq!(decode_payload(&[0x61, 0xff, 0x62]), Value::String("a\u{FFFD}b".to_string()));
}

#[test]
fn timestamps() {
    assert_eq!(record_timestamp(&MessageTime::CreateTime(1_710_000_000_000)), 1_710_000_000_000);
    assert_eq!(record_timestamp(&MessageTime::LogAppendTime(5)), 5);
    assert_eq!(record_timestamp(&MessageTime::NotAvailable), 0);
    assert_eq!(record_timestamp(&MessageTime::CreateTime(-1)), 0);
    assert_eq!(record_timestamp(&MessageTime::LogAppendTime(-1)), 0);
    assert_eq!(record_timestamp(&MessageTime::CreateTime(-2)), u64::MAX - 1);
}

#[test]
fn to_millis_matches_broker_time() {
    assert_eq!(MessageTime::CreateTime(7).to_millis(), Some(7));
    assert_eq!(MessageTime::CreateTime(-1).to_millis(), None);
    assert_eq!(MessageTime::NotAvailable.to_millis(), None);
}

#[test]
fn keyless_message_is_skipped() {
    let mut store = Store::new();
    assert!(record_from_message(message(None, Some(b"1"), MessageTime::NotAvailable)).is_none());
    assert!(!store.consume(message(None, Some(b"1"), MessageTime::NotAvailable)));
    assert!(store.list().is_empty());
}

#[test]
fn keyed_message_becomes_record() {
    let r = record_from_message(message(Some(b"foo"), Some(br#"{"hello":"world"}"#), MessageTime::CreateTime(99))).unwrap();
    assert_eq!(r.key, "foo");
    assert_eq!(r.value, Some(json(r#"{"hello":"world"}"#)));
    assert_eq!(r.timestamp, 99);
    assert_eq!(r.topic, "test");
    assert_eq!(r.partition, 1);
    assert_eq!(r.offset, 42);
}

#[test]
fn key_is_decoded_lossily() {
    let r = record_from_message(message(Some(&[0x66, 0xfe]), Some(b"1"), MessageTime::NotAvailable)).unwrap();
    assert_eq!(r.key, "f\u{FFFD}");
}

#[test]
fn consume_stores_and_deletes() {
    let mut store = Store::new();
    assert!(store.consume(message(Some(b"foo"), Some(br#"{"hello":"world"}"#), MessageTime::CreateTime(1))));
    let got = store.get("foo").unwrap();
    assert_eq!(got.value.unwrap()["hello"], "world");
    assert!(store.consume(message(Some(b"foo"), None, MessageTime::CreateTime(2))));
    assert!(store.get("foo").is_none());
}

#[test]
fn later_message_wins() {
    let mut store = Store::new();
    store.consume(message(Some(b"k"), Some(b"1"), MessageTime::CreateTime(1)));
    store.consume(message(Some(b"k"), Some(b"not json"), MessageTime::CreateTime(2)));
    let got = store.get("k").unwrap();
    assert_eq!(got.value, Some(Value::String("not json".to_string())));
    assert_eq!(got.timestamp, 2);
}
