use std::collections::{HashMap, HashSet};

use matscan_core::database::{compute_server_hash, create_bulk_update, DatabaseSharedData, Query, UpdateRejected, UpdateSet};
use matscan_core::json::JsonValue;
use matscan_core::normalize::{clean_response_data, OnlineMode, ServerUpdate};
use matscan_core::process::{process, process_response, ProcessSkip, Protocol, SharedData};
use matscan_core::snipe::SnipeConfig;

fn s(x: &str) -> JsonValue {
    JsonValue::Str(x.to_string())
}

fn obj(fields: Vec<(&str, JsonValue)>) -> JsonValue {
    JsonValue::Object(fields.into_iter().map(|(k, v)| (k.to_string(), v)).collect())
}

fn status(description: &str, max: i64, sample: Vec<JsonValue>) -> JsonValue {
    obj(vec![
        ("description", s(description)),
        ("players", obj(vec![("max", JsonValue::Int(max)), ("online", JsonValue::Int(0)), ("sample", JsonValue::Array(sample))])),
        ("version", obj(vec![("name", s("1.20.1")), ("protocol", JsonValue::Int(763))])),
    ])
}

fn record(description: &str, max: i64, now: i64) -> ServerUpdate {
    clean_response_data(status(description, max, vec![]), None, now).unwrap()
}

fn no_snipe() -> SnipeConfig {
    SnipeConfig { enabled: false, webhook_url: String::new(), usernames: vec![], anon_players: false }
}

const IP: u32 = 0x0A00_0001;

#[test]
fn end_to_end_fresh_server() {
    let mut shared = SharedData { cached_servers: HashMap::new() };
    let mut db = DatabaseSharedData::new(HashSet::new());
    let data = br#"{"description":"A server","players":{"max":20,"online":0},"version":{"name":"1.20.1","protocol":763}}"#;
    let out = process(&mut shared, &mut db, &no_snipe(), IP, 25565, data, 1_700_000_000_000);
    assert!(out.snipe.is_none());
    let b = out.update.ok().unwrap();
    assert!(matches!(b.query, Query::ByIp { ip: IP, port: 25565 }));
    assert_eq!(b.upsert, Some(true));
    match b.update {
        UpdateSet::Server(u) => {
            assert_eq!(u.online_mode_guess, OnlineMode::Offline);
            assert_eq!(u.online_mode_guess.code(), 0);
            assert_eq!(u.last_empty, Some(1_700_000_000_000));
            assert_eq!(u.last_active, None);
            assert_eq!(u.players.unwrap().len(), 0);
            assert_eq!(u.timestamp, 1_700_000_000_000);
            let p = u.passive.unwrap();
            assert!(p.incorrect_order);
            assert_eq!(p.field_order.as_deref(), Some("description,players,version"));
        },
        UpdateSet::ActiveFingerprint(_) => panic!("wrong update"),
    }
}

#[test]
fn non_json_is_not_status() {
    let mut shared = SharedData { cached_servers: HashMap::new() };
    let mut db = DatabaseSharedData::new(HashSet::new());
    let out = process(&mut shared, &mut db, &no_snipe(), IP, 1, b"\x00\x01garbage", 1);
    assert_eq!(out.update.err(), Some(ProcessSkip::NotStatus));
}

#[test]
fn hash_ignores_time_and_players() {
    let a = clean_response_data(status("same", 20, vec![]), None, 1).unwrap();
    let b = clean_response_data(
        status("same", 20, vec![obj(vec![("id", s("069a79f4-44e9-4726-a5be-fca90e38aaf5")), ("name", s("Notch"))])]),
        None,
        999_999,
    )
    .unwrap();
    assert_eq!(compute_server_hash(&a), compute_server_hash(&b));
    assert!(compute_server_hash(&a).is_some());
}

#[test]
fn hash_follows_content() {
    let base = compute_server_hash(&record("same", 20, 1));
    assert_ne!(base, compute_server_hash(&record("other", 20, 1)));
    assert_ne!(base, compute_server_hash(&record("same", 21, 1)));
    let mut v = status("same", 20, vec![]);
    if let JsonValue::Object(fields) = &mut v {
        fields[2].1 = obj(vec![("name", s("1.20.2")), ("protocol", JsonValue::Int(763))]);
    }
    assert_ne!(base, compute_server_hash(&clean_response_data(v, None, 1).unwrap()));
    let mut w = status("same", 20, vec![]);
    if let JsonValue::Object(fields) = &mut w {
        fields[2].1 = obj(vec![("name", s("1.20.1")), ("protocol", JsonValue::Int(764))]);
    }
    assert_ne!(base, compute_server_hash(&clean_response_data(w, None, 1).unwrap()));
}

#[test]
fn hundred_ports_promote_once() {
    let mut db = DatabaseSharedData::new(HashSet::new());
    let mut promoted = 0;
    for port in (1000u16..1150).chain([25565u16]) {
        match create_bulk_update(&mut db, IP, port, record("canned", 20, port as i64)) {
            Ok(_) => {},
            Err(UpdateRejected::NewBadAddress) => {
                promoted += 1;
                assert_eq!(port, 1099);
            },
            Err(e) => panic!("unexpected {:?}", e),
        }
    }
    assert_eq!(promoted, 1);
}

#[test]
fn ninety_nine_ports_do_not_promote() {
    let mut db = DatabaseSharedData::new(HashSet::new());
    for port in 1000u16..1099 {
        assert!(create_bulk_update(&mut db, IP, port, record("canned", 20, 1)).is_ok());
    }
}

#[test]
fn divergent_hash_disables_promotion() {
    let mut db = DatabaseSharedData::new(HashSet::new());
    for port in 1000u16..1200 {
        let description = if port == 1050 { "different" } else { "canned" };
        assert!(create_bulk_update(&mut db, IP, port, record(description, 20, 1)).is_ok());
    }
}

#[test]
fn repeated_port_is_not_counted_twice() {
    let mut db = DatabaseSharedData::new(HashSet::new());
    for _ in 0..150 {
        assert!(create_bulk_update(&mut db, IP, 1000, record("canned", 20, 1)).is_ok());
    }
}

#[test]
fn bad_address_is_rejected_off_canonical_port() {
    let mut bad = HashSet::new();
    bad.insert(IP);
    let mut db = DatabaseSharedData::new(bad);
    assert_eq!(create_bulk_update(&mut db, IP, 1234, record("x", 1, 1)).err(), Some(UpdateRejected::BadAddress));
    assert!(create_bulk_update(&mut db, IP, 25565, record("x", 1, 1)).is_ok());
    db.add_bad_ip(IP + 1);
    assert!(db.is_bad_ip(IP + 1));
}

#[test]
fn missing_version_fails_when_hash_is_needed() {
    let mut db = DatabaseSharedData::new(HashSet::new());
    let v = obj(vec![("description", s("x"))]);
    let u = clean_response_data(v, None, 1).unwrap();
    assert_eq!(create_bulk_update(&mut db, IP, 1, u).err(), Some(UpdateRejected::MissingVersion));
}

#[test]
fn snipe_reports_joins_and_leaves() {
    let mut shared = SharedData { cached_servers: HashMap::new() };
    let mut db = DatabaseSharedData::new(HashSet::new());
    let config = SnipeConfig {
        enabled: true,
        webhook_url: "http://hook".to_string(),
        usernames: vec!["Notch".to_string(), "jeb_".to_string()],
        anon_players: false,
    };
    let first = br#"{"description":"x","players":{"max":20,"online":1,"sample":[{"id":"069a79f4-44e9-4726-a5be-fca90e38aaf5","name":"jeb_"}]},"version":{"name":"1.20.1","protocol":763}}"#;
    let out = process(&mut shared, &mut db, &config, IP, 25565, first, 1);
    let events = out.snipe.unwrap().events;
    assert_eq!(events.len(), 2);
    let second = br#"{"description":"x","players":{"max":20,"online":1,"sample":[{"id":"069a79f4-44e9-4726-a5be-fca90e38aaf5","name":"Notch"}]},"version":{"name":"1.20.1","protocol":763}}"#;
    let out = process(&mut shared, &mut db, &config, IP, 25565, second, 2);
    let events = out.snipe.unwrap().events;
    assert_eq!(events.len(), 3);
    assert!(matches!(&events[0], matscan_core::snipe::SnipeEvent::Online(n) if n == "Notch"));
    assert!(matches!(&events[1], matscan_core::snipe::SnipeEvent::Joined(n) if n == "Notch"));
    assert!(matches!(&events[2], matscan_core::snipe::SnipeEvent::Left(n) if n == "jeb_"));
}

#[test]
fn honeypot_port_is_rejected_through_process() {
    let mut shared = SharedData { cached_servers: HashMap::new() };
    let mut bad = HashSet::new();
    bad.insert(IP);
    let mut db = DatabaseSharedData::new(bad);
    let data = br#"{"description":"A server","players":{"max":20,"online":0},"version":{"name":"1.20.1","protocol":763}}"#;
    let out = process(&mut shared, &mut db, &no_snipe(), IP, 2000, data, 1);
    assert_eq!(out.update.err(), Some(ProcessSkip::Rejected(UpdateRejected::BadAddress)));
}

#[test]
fn dispatch_by_protocol() {
    let mut shared = SharedData { cached_servers: HashMap::new() };
    let mut db = DatabaseSharedData::new(HashSet::new());
    let out = process_response(Protocol::MinecraftFingerprinting, &mut shared, &mut db, &no_snipe(), IP, 25565, b"", 5);
    let b = out.update.ok().unwrap();
    assert!(matches!(b.query, Query::ByIp { ip: IP, port: 25565 }));
    match b.update {
        UpdateSet::ActiveFingerprint(f) => assert_eq!(f.software, Some(matscan_core::active::ServerType::Empty)),
        UpdateSet::Server(_) => panic!("wrong update"),
    }
    let data = br#"{"description":"A server","players":{"max":20,"online":0},"version":{"name":"1.20.1","protocol":763}}"#;
    let out = process_response(Protocol::Minecraft, &mut shared, &mut db, &no_snipe(), IP, 25565, data, 5);
    assert!(matches!(out.update, Ok(_)));
}
