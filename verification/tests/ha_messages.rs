use artnet_to_hass::ha_client::{build_auth, build_turn_off, build_turn_on};
use serde_json::Value;

fn object(entries: Vec<(&str, Value)>) -> Value {
    let mut map = serde_json::Map::new();
    for (k, v) in entries {
        map.insert(k.to_string(), v);
    }
    Value::Object(map)
}

fn strings(items: &[&str]) -> Value {
    Value::Array(items.iter().map(|s| Value::String(s.to_string())).collect())
}

fn numbers(items: &[u64]) -> Value {
    Value::Array(items.iter().map(|n| Value::from(*n)).collect())
}

#[test]
fn turn_on_matches_ha_protocol() {
    let lights = vec!["light.a".into(), "light.b".into()];
    let msg = build_turn_on(7, &lights, (255, 80, 0));
    assert_eq!(
        msg.into_value(),
        object(vec![
            ("id", Value::from(7u64)),
            ("type", Value::String("call_service".into())),
            ("domain", Value::String("light".into())),
            ("service", Value::String("turn_on".into())),
            ("target", object(vec![("entity_id", strings(&["light.a", "light.b"]))])),
            ("service_data", object(vec![("rgb_color", numbers(&[255, 80, 0]))])),
        ])
    );
}

#[test]
fn turn_off_matches_ha_protocol() {
    let lights = vec!["light.a".into()];
    let msg = build_turn_off(9, &lights);
    assert_eq!(
        msg.into_value(),
        object(vec![
            ("id", Value::from(9u64)),
            ("type", Value::String("call_service".into())),
            ("domain", Value::String("light".into())),
            ("service", Value::String("turn_off".into())),
            ("target", object(vec![("entity_id", strings(&["light.a"]))])),
        ])
    );
}

#[test]
fn auth_message_format() {
    let msg = build_auth("abc.def.ghi");
    assert_eq!(
        msg.into_value(),
        object(vec![
            ("type", Value::String("auth".into())),
            ("access_token", Value::String("abc.def.ghi".into())),
        ])
    );
}

#[test]
fn turn_on_text_is_compact_json_with_sorted_keys() {
    let lights = vec!["light.a".into()];
    let msg = build_turn_on(1, &lights, (1, 2, 3));
    assert_eq!(
        msg.text(),
        "{\"domain\":\"light\",\"id\":1,\"service\":\"turn_on\",\"service_data\":{\"rgb_color\":[1,2,3]},\"target\":{\"entity_id\":[\"light.a\"]},\"type\":\"call_service\"}"
    );
}
