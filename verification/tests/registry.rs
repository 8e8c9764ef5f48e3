use chat_relay::envelope::{lookup_response, room_id_response, ApiResult};
use chat_relay::registry::RoomRegistry;

#[test]
fn resolve_same_key_twice_returns_same_id() {
    let mut reg = RoomRegistry::new();
    let first = reg.resolve_or_create("lobby".to_string());
    let second = reg.resolve_or_create("lobby".to_string());
    assert_eq!(first, second);
}

#[test]
fn resolve_distinct_keys_in_order_gives_increasing_ids() {
    let mut reg = RoomRegistry::new();
    let id1 = reg.resolve_or_create("first".to_string());
    let id2 = reg.resolve_or_create("second".to_string());
    assert!(id1 < id2);
}

#[test]
fn lookup_of_resolved_id_returns_the_key() {
    let mut reg = RoomRegistry::new();
    let id = reg.resolve_or_create("alpha".to_string());
    reg.resolve_or_create("beta".to_string());
    assert_eq!(reg.lookup(id).map(|k| k.as_str()), Some("alpha"));
}

#[test]
fn lookup_of_never_allocated_id_is_not_found() {
    let mut reg = RoomRegistry::new();
    reg.resolve_or_create("only".to_string());
    assert!(reg.lookup(1).is_none());
    assert!(reg.lookup(7).is_none());
    assert!(reg.lookup(u32::MAX).is_none());
}

#[test]
fn registration_scenario_ids_lookups_and_errors() {
    let mut reg = RoomRegistry::new();
    assert_eq!(reg.resolve_or_create("room-a".to_string()), 0);
    assert_eq!(reg.resolve_or_create("room-b".to_string()), 1);
    assert_eq!(reg.resolve_or_create("room-a".to_string()), 0);
    assert_eq!(reg.lookup(1).map(|k| k.as_str()), Some("room-b"));
    match lookup_response(&reg, "2") {
        ApiResult::Error(m) => assert_eq!(m, "unknown room id"),
        ApiResult::Value(_) => panic!("lookup of an unallocated id must fail"),
    }
    match lookup_response(&reg, "xyz") {
        ApiResult::Error(m) => assert_eq!(m, "room parameter is not a number"),
        ApiResult::Value(_) => panic!("a non-numeric body must fail"),
    }
}

#[test]
fn room_id_endpoint_renders_decimal_ids() {
    let mut reg = RoomRegistry::new();
    assert_eq!(room_id_response(&mut reg, "room-a".to_string()), "0");
    assert_eq!(room_id_response(&mut reg, "room-b".to_string()), "1");
    assert_eq!(room_id_response(&mut reg, "room-a".to_string()), "0");
}

#[test]
fn lookup_endpoint_envelopes_serialize_as_documented() {
    let mut reg = RoomRegistry::new();
    reg.resolve_or_create("room-a".to_string());
    reg.resolve_or_create("room-b".to_string());
    let ok = lookup_response(&reg, "1").to_json();
    assert_eq!(ok, "{\"status\":\"ok\",\"value\":\"room-b\"}");
    let unknown = lookup_response(&reg, "2").to_json();
    assert_eq!(unknown, "{\"status\":\"err\",\"msg\":\"unknown room id\"}");
    let bad = lookup_response(&reg, "xyz").to_json();
    assert_eq!(bad, "{\"status\":\"err\",\"msg\":\"room parameter is not a number\"}");
}

#[test]
fn lookup_endpoint_rejects_out_of_range_and_odd_numerals() {
    let mut reg = RoomRegistry::new();
    reg.resolve_or_create("room-a".to_string());
    for body in ["", "-1", "1.5", " 1", "4294967296", "99999999999999999999"] {
        match lookup_response(&reg, body) {
            ApiResult::Error(m) => assert_eq!(m, "room parameter is not a number"),
            ApiResult::Value(_) => panic!("body {:?} must not parse", body),
        }
    }
    match lookup_response(&reg, "0") {
        ApiResult::Value(v) => assert_eq!(v, "room-a"),
        ApiResult::Error(_) => panic!("a registered id must be found"),
    }
    match lookup_response(&reg, "007") {
        ApiResult::Error(m) => assert_eq!(m, "unknown room id"),
        ApiResult::Value(_) => panic!("id 7 was never allocated"),
    }
}
