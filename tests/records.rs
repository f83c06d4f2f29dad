use matscan_core::json::JsonValue;
use matscan_core::normalize::{classify_identifier, clean_response_data, remove_hyphens, IdKind, OnlineMode};
use matscan_core::passive::{generate_passive_fingerprint, passive_fingerprint_of, InvalidJson};

fn s(x: &str) -> JsonValue {
    JsonValue::Str(x.to_string())
}

fn obj(fields: Vec<(&str, JsonValue)>) -> JsonValue {
    JsonValue::Object(fields.into_iter().map(|(k, v)| (k.to_string(), v)).collect())
}

fn player(id: &str, name: &str) -> JsonValue {
    obj(vec![("id", s(id)), ("name", s(name))])
}

fn response(sample: Vec<JsonValue>) -> JsonValue {
    obj(vec![
        ("description", s("A server")),
        ("players", obj(vec![("max", JsonValue::Int(20)), ("online", JsonValue::Int(sample.len() as i64)), ("sample", JsonValue::Array(sample))])),
        ("version", obj(vec![("name", s("1.20.1")), ("protocol", JsonValue::Int(763))])),
    ])
}

const ONLINE_ID: &str = "069a79f4-44e9-4726-a5be-fca90e38aaf5";
const OFFLINE_ID: &str = "8667ba71-b85a-3004-af54-457a9734eed7";
const NIL_ID: &str = "00000000-0000-0000-0000-000000000000";

#[test]
fn identifier_kinds() {
    assert_eq!(classify_identifier(&remove_hyphens(ONLINE_ID)), IdKind::Authenticated);
    assert_eq!(classify_identifier(&remove_hyphens(OFFLINE_ID)), IdKind::Unauthenticated);
    assert_eq!(classify_identifier(&remove_hyphens(NIL_ID)), IdKind::Anonymous);
    assert_eq!(classify_identifier(""), IdKind::Anonymous);
}

#[test]
fn hyphens_are_stripped() {
    assert_eq!(remove_hyphens(ONLINE_ID), "069a79f444e94726a5befca90e38aaf5");
}

#[test]
fn authenticated_sample_means_online() {
    let u = clean_response_data(response(vec![player(ONLINE_ID, "Notch")]), None, 1000).unwrap();
    assert_eq!(u.online_mode_guess, OnlineMode::Online);
    assert_eq!(u.online_mode_guess.code(), 1);
    let players = u.players.unwrap();
    assert_eq!(players.len(), 1);
    assert_eq!(players[0].id, "069a79f444e94726a5befca90e38aaf5");
    assert_eq!(players[0].name, "Notch");
    assert_eq!(u.last_active, Some(1000));
    assert_eq!(u.last_empty, None);
}

#[test]
fn unauthenticated_sample_means_offline() {
    let u = clean_response_data(response(vec![player(OFFLINE_ID, "steve")]), None, 5).unwrap();
    assert_eq!(u.online_mode_guess, OnlineMode::Offline);
    assert_eq!(u.online_mode_guess.code(), 0);
}

#[test]
fn both_kinds_mean_mixed() {
    let u = clean_response_data(response(vec![player(ONLINE_ID, "Notch"), player(OFFLINE_ID, "steve")]), None, 5).unwrap();
    assert_eq!(u.online_mode_guess, OnlineMode::Mixed);
    assert_eq!(u.online_mode_guess.code(), 2);
}

#[test]
fn anonymous_players_are_recorded_but_not_classified() {
    let u = clean_response_data(response(vec![player(NIL_ID, "Anonymous Player"), player(ONLINE_ID, "Notch")]), None, 5).unwrap();
    assert_eq!(u.online_mode_guess, OnlineMode::Online);
    let players = u.players.unwrap();
    assert_eq!(players.len(), 2);
    assert_eq!(players[0].id, "00000000000000000000000000000000");
    assert_eq!(players[0].name, "Anonymous Player");
}

#[test]
fn forged_identifier_suppresses_presence() {
    let u = clean_response_data(response(vec![player(ONLINE_ID, "Notch"), player("not-a-uuid", "bot")]), None, 5).unwrap();
    assert!(u.players.is_none());
    assert_eq!(u.last_active, None);
    assert_eq!(u.last_empty, None);
}

#[test]
fn privacy_sentinel_skips_the_sample() {
    let mut v = response(vec![player("junk", "junk")]);
    if let JsonValue::Object(fields) = &mut v {
        fields[0].1 = s("To protect the privacy of this server and its\nusers, you must log in once to see ping data.");
    }
    let u = clean_response_data(v, None, 9).unwrap();
    assert_eq!(u.players.unwrap().len(), 0);
    assert_eq!(u.last_empty, Some(9));
}

#[test]
fn missing_description_is_no_record() {
    let v = obj(vec![("version", obj(vec![("name", s("x"))]))]);
    assert!(clean_response_data(v, None, 1).is_none());
    assert!(clean_response_data(JsonValue::Array(vec![]), None, 1).is_none());
}

#[test]
fn non_object_sample_entry_is_no_record() {
    assert!(clean_response_data(response(vec![s("x")]), None, 1).is_none());
}

#[test]
fn description_texts() {
    let u = clean_response_data(response(vec![]), None, 1).unwrap();
    assert_eq!(u.description, "\"A server\"");
    assert_eq!(u.clean_description, "A server");
    assert!(!u.is_forge);
    assert!(u.forge_mods.is_none());
}

#[test]
fn forge_marker_sets_flag() {
    let mut v = response(vec![]);
    if let JsonValue::Object(fields) = &mut v {
        fields.push(("forgeData".to_string(), obj(vec![("d", s("\u{0}"))])));
    }
    let u = clean_response_data(v, None, 1).unwrap();
    assert!(u.is_forge);
    assert!(u.forge_mods.is_none());
}

#[test]
fn passive_order_of_old_protocol() {
    let fp = generate_passive_fingerprint(
        r#"{"players":{"max":20,"online":0},"version":{"name":"1.16.5","protocol":754},"description":"x"}"#,
    )
    .unwrap();
    assert!(fp.incorrect_order);
    assert_eq!(fp.field_order.as_deref(), Some("players,version,description"));
    assert!(!fp.empty_sample);
    assert!(!fp.empty_favicon);
}

#[test]
fn passive_order_correct_for_new_protocol() {
    let fp = generate_passive_fingerprint(
        r#"{"version":{"name":"1.20.1","protocol":763},"description":"x","players":{"max":20,"online":0}}"#,
    )
    .unwrap();
    assert!(!fp.incorrect_order);
    assert_eq!(fp.field_order, None);
}

#[test]
fn passive_nested_order_is_annotated() {
    let fp = generate_passive_fingerprint(
        r#"{"description":"x","players":{"online":0,"max":20,"sample":[]},"version":{"protocol":754,"name":"a"},"favicon":""}"#,
    )
    .unwrap();
    assert!(fp.incorrect_order);
    assert_eq!(fp.field_order.as_deref(), Some("description,players(online,max),version(protocol,name)"));
    assert!(fp.empty_sample);
    assert!(fp.empty_favicon);
}

#[test]
fn passive_rejects_non_json() {
    assert_eq!(generate_passive_fingerprint("not json").err(), Some(InvalidJson));
}

#[test]
fn passive_of_non_object() {
    let fp = passive_fingerprint_of(&JsonValue::Int(3));
    assert!(!fp.incorrect_order);
    assert_eq!(fp.field_order, None);
}

#[test]
fn unrenderable_description_falls_back_to_empty() {
    let mut v = response(vec![]);
    if let JsonValue::Object(fields) = &mut v {
        fields[0].1 = obj(vec![("nbt", s("x")), ("interpret", JsonValue::Int(1))]);
    }
    let u = clean_response_data(v, None, 1).unwrap();
    assert_eq!(u.clean_description, "");
    assert_eq!(u.description, r#"{"nbt":"x","interpret":1}"#);
}

#[test]
fn translatable_description_is_not_rendered() {
    let mut v = response(vec![]);
    if let JsonValue::Object(fields) = &mut v {
        fields[0].1 = obj(vec![("translate", s("%1x"))]);
    }
    assert_eq!(clean_response_data(v, None, 1).unwrap().clean_description, "");
}

#[test]
fn text_with_extra_is_rendered() {
    let mut v = response(vec![]);
    if let JsonValue::Object(fields) = &mut v {
        fields[0].1 = obj(vec![("text", s("A ")), ("extra", JsonValue::Array(vec![s("server"), obj(vec![("text", s("!"))])]))]);
    }
    assert_eq!(clean_response_data(v, None, 1).unwrap().clean_description, "A server!");
}

#[test]
fn number_too_large_for_the_store_is_no_record() {
    let mut v = response(vec![]);
    if let JsonValue::Object(fields) = &mut v {
        fields.push(("huge".to_string(), JsonValue::UInt(u64::MAX)));
    }
    assert!(clean_response_data(v, None, 1).is_none());
}
