use brickellstatus_runtime::json::{JsonMember, JsonNumber, JsonObject, JsonValue};
use brickellstatus_runtime::location::{
    check_response_size, location_search_results, validated_query, validated_user_agent,
    LocationSearchError, MAX_QUERY_CHARS, MAX_RESPONSE_BYTES, MAX_RESULTS,
};
use brickellstatus_runtime::number::{Decimal, Real};

fn object(members: Vec<(&str, JsonValue)>) -> JsonValue {
    JsonValue::Object(JsonObject {
        members: members
            .into_iter()
            .map(|(key, value)| JsonMember { key: key.into(), value })
            .collect(),
    })
}

fn text(value: &str) -> JsonValue {
    JsonValue::String(value.into())
}

fn integer(value: i128) -> JsonValue {
    JsonValue::Number(JsonNumber::Integer(value))
}

fn decimal(mantissa: i64, exponent: i32) -> JsonValue {
    JsonValue::Number(JsonNumber::Float(Decimal::new(mantissa, exponent)))
}

fn results(values: Vec<JsonValue>) -> JsonValue {
    object(vec![("results", JsonValue::Array(values))])
}

#[test]
fn parses_fixture_into_runtime_dto() {
    let body = results(vec![
        object(vec![
            ("id", integer(4164138)),
            ("name", text("Miami")),
            ("latitude", decimal(2577427, -5)),
            ("longitude", decimal(-8019366, -5)),
            ("timezone", text("America/New_York")),
            ("country_code", text("US")),
            ("admin1", text("Florida")),
            ("country", text("United States")),
        ]),
        object(vec![
            ("id", integer(4164143)),
            ("name", text("Miami Beach")),
            ("latitude", decimal(2579065, -5)),
            ("longitude", decimal(-8013005, -5)),
            ("timezone", text("America/New_York")),
            ("country_code", text("US")),
            ("admin1", text("Florida")),
            ("country", text("United States")),
        ]),
        object(vec![
            ("id", integer(1)),
            ("name", text("Null Island")),
            ("latitude", integer(0)),
            ("longitude", integer(0)),
            ("country_code", text("   ")),
            ("admin1", JsonValue::Null),
        ]),
    ]);
    let results = location_search_results(&body).unwrap();

    assert_eq!(results.len(), 3);
    assert_eq!(results[0].id, "open-meteo:4164138");
    assert_eq!(results[0].label, "Miami, Florida, United States");
    assert_eq!(results[0].latitude, Real::Finite(Decimal::new(2577427, -5)));
    assert_eq!(results[0].longitude, Real::Finite(Decimal::new(-8019366, -5)));
    assert_eq!(results[0].time_zone, "America/New_York");
    assert_eq!(results[0].country_code.as_deref(), Some("US"));
    assert_eq!(results[0].admin_area.as_deref(), Some("Florida"));

    assert_eq!(results[2].label, "Null Island");
    assert_eq!(results[2].time_zone, "UTC");
    assert_eq!(results[2].country_code, None);
    assert_eq!(results[2].admin_area, None);
}

#[test]
fn missing_results_is_a_valid_empty_response() {
    let body = object(vec![("generationtime_ms", decimal(12, -2))]);
    assert_eq!(location_search_results(&body).unwrap(), Vec::new());
}

#[test]
fn parser_never_returns_more_than_eight_results() {
    let values = (1..=10)
        .map(|id| {
            object(vec![
                ("id", integer(id)),
                ("name", text(&format!("Place {id}"))),
                ("latitude", decimal(10, -1)),
                ("longitude", decimal(20, -1)),
            ])
        })
        .collect::<Vec<_>>();
    let parsed = location_search_results(&results(values)).unwrap();
    assert_eq!(parsed.len(), MAX_RESULTS);
    assert_eq!(parsed.last().unwrap().id, "open-meteo:8");
}

#[test]
fn distinguishes_invalid_json_from_schema_changes() {
    assert!(serde_json::from_slice::<serde_json::Value>(br#"{"results": ["#).is_err());
    assert!(matches!(
        location_search_results(&object(vec![("results", object(vec![]))])),
        Err(LocationSearchError::Schema { .. })
    ));
    assert!(matches!(
        location_search_results(&results(vec![object(vec![
            ("id", integer(1)),
            ("name", text("Miami")),
            ("latitude", integer(91)),
            ("longitude", integer(-80)),
        ])])),
        Err(LocationSearchError::Schema { .. })
    ));
}

#[test]
fn rejects_oversized_parser_input() {
    assert!(matches!(
        check_response_size(MAX_RESPONSE_BYTES + 1),
        Err(LocationSearchError::BodyTooLarge { .. })
    ));
    assert!(check_response_size(MAX_RESPONSE_BYTES).is_ok());
}

#[test]
fn query_validation_uses_trimmed_unicode_character_count() {
    assert_eq!(validated_query("  Mí  ").unwrap(), "Mí");
    assert!(matches!(
        validated_query(" x "),
        Err(LocationSearchError::InvalidQuery { length: 1 })
    ));
    let maximum = "x".repeat(MAX_QUERY_CHARS);
    assert_eq!(validated_query(&maximum).unwrap(), maximum);
    let too_long = "x".repeat(MAX_QUERY_CHARS + 1);
    assert!(matches!(
        validated_query(&too_long),
        Err(LocationSearchError::InvalidQuery { .. })
    ));
}

#[test]
fn validates_a_descriptive_user_agent_without_network_io() {
    assert!(validated_user_agent("TenderStatus/0.1 (ops@example.test)").is_ok());
    assert!(matches!(
        validated_user_agent("reqwest"),
        Err(LocationSearchError::InvalidUserAgent { .. })
    ));
    assert!(matches!(
        validated_user_agent("TenderStatus/0.1\nInjected: value"),
        Err(LocationSearchError::InvalidUserAgent { .. })
    ));
}

#[test]
fn a_result_without_a_name_or_with_a_bad_code_is_a_schema_change() {
    let unnamed = results(vec![object(vec![
        ("id", integer(1)),
        ("name", text("  ")),
        ("latitude", integer(1)),
        ("longitude", integer(2)),
    ])]);
    assert!(matches!(location_search_results(&unnamed), Err(LocationSearchError::Schema { .. })));
    let bad_code = results(vec![object(vec![
        ("id", integer(1)),
        ("name", text("Somewhere")),
        ("latitude", integer(1)),
        ("longitude", integer(2)),
        ("country_code", text("USA")),
    ])]);
    assert!(matches!(location_search_results(&bad_code), Err(LocationSearchError::Schema { .. })));
    let negative_id = results(vec![object(vec![
        ("id", integer(-1)),
        ("name", text("Somewhere")),
        ("latitude", integer(1)),
        ("longitude", integer(2)),
    ])]);
    assert!(matches!(location_search_results(&negative_id), Err(LocationSearchError::Schema { .. })));
    assert!(matches!(location_search_results(&text("[]")), Err(LocationSearchError::Schema { .. })));
}

#[test]
fn a_user_agent_needs_a_slash_and_a_letter() {
    assert!(validated_user_agent("12345678/9").is_err());
    assert!(validated_user_agent("  Brickell/0.1  ").unwrap() == "Brickell/0.1");
    assert!(validated_user_agent("Agent007").is_err());
}
