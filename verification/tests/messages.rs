use fluxmux::json::Json;
use fluxmux::message::{Format, Message, StringMap, Timestamp};

#[test]
fn string_map_stores_and_replaces() {
    let mut map = StringMap::new();
    assert_eq!(map.len(), 0);
    assert_eq!(map.get("a"), None);
    map.insert("a".to_string(), "1".to_string());
    map.insert("b".to_string(), "2".to_string());
    assert_eq!(map.get("a"), Some(&"1".to_string()));
    assert_eq!(map.get("b"), Some(&"2".to_string()));
    map.insert("a".to_string(), "3".to_string());
    assert_eq!(map.get("a"), Some(&"3".to_string()));
    assert_eq!(map.get("b"), Some(&"2".to_string()));
    assert_eq!(map.len(), 2);
    let entry = map.entry(0);
    assert_eq!((entry.0.as_str(), entry.1.as_str()), ("a", "3"));
}

#[test]
fn string_map_clone_keeps_entries() {
    let mut map = StringMap::new();
    map.insert("k".to_string(), "v".to_string());
    let copy = map.clone();
    assert_eq!(copy.get("k"), Some(&"v".to_string()));
    assert_eq!(copy.len(), 1);
}

#[test]
fn json_message_carries_only_the_document() {
    let at = Timestamp { secs: 5, nanos: 6 };
    let msg = Message::json(b"{}".to_vec(), Some(Json::Object(Vec::new())), at);
    assert_eq!(msg.id, None);
    assert_eq!(msg.key, None);
    assert_eq!(msg.payload, b"{}".to_vec());
    assert_eq!(msg.format, Some(Format::Json));
    assert_eq!(msg.parsed, Some(Json::Object(Vec::new())));
    assert_eq!(msg.timestamp, at);
    assert_eq!(msg.headers.len(), 0);
    assert_eq!(msg.meta.len(), 0);
}

#[test]
fn message_clone_keeps_every_field() {
    let mut msg = Message::json(b"1".to_vec(), Some(Json::Null), Timestamp { secs: 1, nanos: 2 });
    msg.id = Some("id-1".to_string());
    msg.key = Some(vec![1, 2, 3]);
    msg.format = Some(Format::Binary);
    msg.headers.insert("h".to_string(), "x".to_string());
    msg.meta.insert("m".to_string(), "y".to_string());
    let copy = msg.clone();
    assert_eq!(copy.id, msg.id);
    assert_eq!(copy.key, msg.key);
    assert_eq!(copy.payload, msg.payload);
    assert_eq!(copy.format, msg.format);
    assert_eq!(copy.parsed, msg.parsed);
    assert_eq!(copy.timestamp, msg.timestamp);
    assert_eq!(copy.headers.get("h"), Some(&"x".to_string()));
    assert_eq!(copy.meta.get("m"), Some(&"y".to_string()));
}

#[test]
fn wall_clock_reads_a_time_after_the_epoch() {
    let now = Timestamp::now();
    assert!(now.secs > 1_500_000_000);
}
