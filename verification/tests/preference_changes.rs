use brickellstatus_runtime::catalog::FeedCatalog;
use brickellstatus_runtime::changes::{changed_channel_ids, json_equal};
use brickellstatus_runtime::dto::AppPreferences;
use brickellstatus_runtime::json::{JsonMember, JsonNumber, JsonObject, JsonValue};
use brickellstatus_runtime::number::Decimal;

fn shipped() -> AppPreferences {
    AppPreferences::defaults(&FeedCatalog {
        schema_version: 1,
        verified_on: "2025-01-01".into(),
        sections: Vec::new(),
    })
}

fn object(members: Vec<(&str, JsonValue)>) -> JsonValue {
    JsonValue::Object(JsonObject {
        members: members
            .into_iter()
            .map(|(key, value)| JsonMember { key: key.into(), value })
            .collect(),
    })
}

#[test]
fn area_changes_invalidate_every_selected_area_channel() {
    let old = shipped();
    let mut new = old.clone();
    new.areas[0].enabled = false;

    let changed = changed_channel_ids(&old, &new);
    assert!(changed.iter().any(|id| id == "weather.miami"));
    assert!(changed.iter().any(|id| id == "official.miami"));
    assert!(changed.iter().any(|id| id == "hurricane.atlantic"));
    assert!(!changed.iter().any(|id| id == "bridge.brickell"));
}

#[test]
fn an_unchanged_profile_touches_nothing_and_each_change_is_named_once() {
    let old = shipped();
    assert!(changed_channel_ids(&old, &old.clone()).is_empty());

    let mut new = old.clone();
    new.profile.channels[0].max_age_minutes += 1;
    new.profile.channels[4].title = "Local headlines".into();
    let changed = changed_channel_ids(&old, &new);
    assert_eq!(changed, vec!["bridge.brickell".to_string(), "news.local".to_string()]);

    let mut fewer = old.clone();
    fewer.profile.channels.pop();
    assert_eq!(changed_channel_ids(&old, &fewer), vec!["sports.miami".to_string()]);
}

#[test]
fn json_values_compare_as_values() {
    let a = object(vec![
        ("x", JsonValue::Number(JsonNumber::Float(Decimal::new(5, -1)))),
        ("y", JsonValue::Array(vec![JsonValue::Bool(true), JsonValue::Null])),
    ]);
    let b = object(vec![
        ("y", JsonValue::Array(vec![JsonValue::Bool(true), JsonValue::Null])),
        ("x", JsonValue::Number(JsonNumber::Float(Decimal::new(50, -2)))),
    ]);
    assert!(json_equal(&a, &b), "key order and trailing zeros do not matter");
    let c = object(vec![("x", JsonValue::Number(JsonNumber::Integer(1)))]);
    let d = object(vec![("x", JsonValue::Number(JsonNumber::Float(Decimal::new(1, 0))))]);
    assert!(!json_equal(&c, &d), "an integer never equals a fractional number");
    let e = object(vec![("x", JsonValue::Null), ("z", JsonValue::Null)]);
    let f = object(vec![("x", JsonValue::Null)]);
    assert!(!json_equal(&e, &f));
    assert!(!json_equal(&f, &e));
}
