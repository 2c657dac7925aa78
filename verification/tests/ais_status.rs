use brickellstatus_runtime::ais::{aisstream_status, fresh_expiration_count, iso_timestamp, SourceEntry};
use brickellstatus_runtime::availability::{CursorEntry, HealthState, SourceState};
use brickellstatus_runtime::catalog::FeedCatalog;
use brickellstatus_runtime::dto::{AisConnectionStateDto, AppPreferences, AvailabilityDto};
use brickellstatus_runtime::item::{CollectorItem, ItemKind, SourceLink};
use brickellstatus_runtime::evidence::{bridge_evidence, evidence_list, AvailabilityStatus};
use brickellstatus_runtime::json::{JsonMember, JsonNumber, JsonObject, JsonValue};
use brickellstatus_runtime::runtime::RuntimeError;
use brickellstatus_runtime::text::parse_i64;

const NOW_MS: i64 = 1_786_741_200_000;

fn shipped() -> AppPreferences {
    AppPreferences::defaults(&FeedCatalog {
        schema_version: 1,
        verified_on: "2025-01-01".into(),
        sections: Vec::new(),
    })
}

fn ais_bridge_item(observed_ms: i64, ends_ms: Option<i64>) -> CollectorItem {
    CollectorItem {
        id: "aisstream:367719770".into(),
        kind: ItemKind::Bridge,
        title: "RIVER RUNNER · 367719770".into(),
        summary: None,
        observed_at_ms: Some(observed_ms),
        starts_at_ms: None,
        ends_at_ms: ends_ms,
        location: None,
        source: SourceLink { name: "AISStream".into(), url: None },
        attributes: JsonObject {
            members: vec![JsonMember { key: "relation".into(), value: JsonValue::String("ais".into()) }],
        },
    }
}

fn healthy_source(channel_id: &str, item: CollectorItem, last_success_ms: i64) -> SourceState {
    let mut source = SourceState::empty(channel_id);
    source.items = vec![item];
    source.reported_health = HealthState::Healthy;
    source.last_attempt_ms = Some(last_success_ms);
    source.first_attempt_ms = Some(last_success_ms);
    source.last_success_ms = Some(last_success_ms);
    source
}

fn keyed() -> AppPreferences {
    let mut preferences = shipped();
    preferences.ais.enabled = true;
    preferences.ais.api_key_configured = true;
    preferences
}

fn registration(preferences: &AppPreferences) -> (String, String) {
    let channel_id = preferences.profile.home_channel_id.clone();
    (format!("aisstream.{channel_id}"), channel_id)
}

fn tracked_vessel(observed_ms: i64, ends_ms: Option<i64>) -> CollectorItem {
    let mut item = ais_bridge_item(observed_ms, ends_ms);
    for (key, value) in [
        ("state", JsonValue::String("approaching".into())),
        ("movement", JsonValue::String("approaching".into())),
        ("route_intersects", JsonValue::Bool(true)),
        ("mmsi", JsonValue::String("367719770".into())),
        ("vessel_name", JsonValue::String("RIVER RUNNER".into())),
        ("eta_min_minutes", JsonValue::Number(JsonNumber::Integer(6))),
        ("eta_max_minutes", JsonValue::Number(JsonNumber::Integer(10))),
    ] {
        item.attributes.insert(key.into(), value);
    }
    item
}

#[test]
fn expired_ais_positions_are_not_evidence_or_fresh_vessel_counts() {
    let preferences = keyed();
    let (source_id, channel_id) = registration(&preferences);
    let mut source = healthy_source(&channel_id, tracked_vessel(NOW_MS, Some(NOW_MS - 1)), NOW_MS);
    source.fail_closed_on_error = true;
    source.cursor.metadata.push(CursorEntry {
        key: "fresh_vessel_expirations_ms".into(),
        value: format!("[{}]", NOW_MS - 1),
    });
    source.cursor.metadata.push(CursorEntry {
        key: "last_position_at_ms".into(),
        value: NOW_MS.to_string(),
    });
    let sources = vec![SourceEntry { source_id: source_id.clone(), state: source }];
    let active = vec![(source_id.clone(), channel_id.clone())];
    let views = bridge_evidence(&preferences.profile.channels, &sources, &active, &[], NOW_MS);
    assert_eq!(views[0].availability, AvailabilityDto::Stale);
    let evidence = evidence_list(&views);
    assert_eq!(evidence[0].observation.availability.status, AvailabilityStatus::Stale);
    let status = aisstream_status(&preferences, &sources, &[(source_id, channel_id)], NOW_MS).unwrap();
    assert_eq!(status.connection_state, AisConnectionStateDto::Armed);
    assert_eq!(status.fresh_vessel_count, 0);
    assert_eq!(status.availability, AvailabilityDto::Fresh);
    assert_eq!(status.last_position_at.as_deref(), Some("2026-08-14T21:00:00Z"));
    assert_eq!(status.detail, "Connected. No vessel in range right now.");
}

#[test]
fn unexpired_vessels_make_the_source_live() {
    let preferences = keyed();
    let (source_id, channel_id) = registration(&preferences);
    let mut source = healthy_source(&channel_id, ais_bridge_item(NOW_MS, None), NOW_MS);
    source.cursor.metadata.push(CursorEntry {
        key: "fresh_vessel_expirations_ms".into(),
        value: format!("[{}, {}, {}]", NOW_MS, NOW_MS + 60_000, NOW_MS - 5),
    });
    let sources = vec![SourceEntry { source_id: source_id.clone(), state: source }];
    let status = aisstream_status(&preferences, &sources, &[(source_id, channel_id)], NOW_MS).unwrap();
    assert_eq!(status.connection_state, AisConnectionStateDto::Live);
    assert_eq!(status.fresh_vessel_count, 2);
    assert_eq!(status.detail, "Connected. 2 vessels in range.");
    assert_eq!(status.last_success_at.as_deref(), Some("2026-08-14T21:00:00Z"));
    assert!(status.source_registered);
    assert!(status.enabled);
}

#[test]
fn without_a_cursor_list_current_ais_items_are_counted() {
    let preferences = keyed();
    let (source_id, channel_id) = registration(&preferences);
    let source = healthy_source(&channel_id, ais_bridge_item(NOW_MS - 30_000, Some(NOW_MS + 60_000)), NOW_MS);
    let sources = vec![SourceEntry { source_id: source_id.clone(), state: source }];
    let status = aisstream_status(&preferences, &sources, &[(source_id, channel_id)], NOW_MS).unwrap();
    assert_eq!(status.connection_state, AisConnectionStateDto::Live);
    assert_eq!(status.fresh_vessel_count, 1);
    assert_eq!(status.detail, "Connected. 1 vessel in range.");
}

#[test]
fn no_key_means_the_reader_is_asked_for_one() {
    let preferences = shipped();
    let status = aisstream_status(&preferences, &[], &[], NOW_MS).unwrap();
    assert_eq!(status.connection_state, AisConnectionStateDto::NeedsKey);
    assert_eq!(status.availability, AvailabilityDto::Offline);
    assert!(!status.source_registered);
    assert_eq!(status.detail, "Add a key to start the vessel source.");
    assert_eq!(status.last_success_at, None);
}

#[test]
fn a_refused_key_is_reported_as_rejected() {
    let preferences = keyed();
    let (source_id, channel_id) = registration(&preferences);
    let mut source = SourceState::empty(&channel_id);
    source.last_attempt_ms = Some(NOW_MS - 1_000);
    source.first_attempt_ms = Some(NOW_MS - 1_000);
    source.last_error = Some("AISStream REJECTED the   key".into());
    let sources = vec![SourceEntry { source_id: source_id.clone(), state: source }];
    let status = aisstream_status(&preferences, &sources, &[(source_id, channel_id)], NOW_MS).unwrap();
    assert_eq!(status.connection_state, AisConnectionStateDto::Rejected);
    assert_eq!(status.last_error.as_deref(), Some("AISStream REJECTED the key"));
    assert_eq!(status.detail, "The key was refused. Replace it.");
}

#[test]
fn a_new_quiet_source_is_connecting_then_disconnected() {
    let preferences = keyed();
    let (source_id, channel_id) = registration(&preferences);
    let mut source = SourceState::empty(&channel_id);
    source.last_attempt_ms = Some(NOW_MS - 60_000);
    source.first_attempt_ms = Some(NOW_MS - 60_000);
    source.last_error = Some("socket closed".into());
    let sources = vec![SourceEntry { source_id: source_id.clone(), state: source }];
    let regs = [(source_id, channel_id)];
    let settling = aisstream_status(&preferences, &sources, &regs, NOW_MS).unwrap();
    assert_eq!(settling.connection_state, AisConnectionStateDto::Armed);
    assert_eq!(settling.detail, "Connecting.");
    let later = aisstream_status(&preferences, &sources, &regs, NOW_MS + 3 * 60_000).unwrap();
    assert_eq!(later.connection_state, AisConnectionStateDto::Disconnected);
    assert_eq!(later.detail, "Not connected.");
}

#[test]
fn a_registered_source_without_state_is_offline_and_armed() {
    let preferences = keyed();
    let (source_id, channel_id) = registration(&preferences);
    let status = aisstream_status(&preferences, &[], &[(source_id, channel_id)], NOW_MS).unwrap();
    assert_eq!(status.availability, AvailabilityDto::Offline);
    assert_eq!(status.connection_state, AisConnectionStateDto::Armed);
    assert_eq!(status.detail, "Connected. No vessel in range right now.");
}

#[test]
fn an_instant_jiff_cannot_hold_is_a_time_error() {
    let preferences = keyed();
    let (source_id, channel_id) = registration(&preferences);
    let mut source = healthy_source(&channel_id, ais_bridge_item(i64::MAX, None), NOW_MS);
    source.items[0].observed_at_ms = Some(300_000_000_000_000);
    let sources = vec![SourceEntry { source_id: source_id.clone(), state: source }];
    let status = aisstream_status(&preferences, &sources, &[(source_id, channel_id)], NOW_MS);
    assert!(matches!(status, Err(RuntimeError::Time(_))));
    assert!(iso_timestamp(253_402_207_200_000).is_ok());
    assert!(iso_timestamp(253_402_207_200_001).is_err());
    assert_eq!(iso_timestamp(1).unwrap(), "1970-01-01T00:00:00.001Z");
}

#[test]
fn expiration_lists_are_counted_only_up_to_the_cap() {
    assert_eq!(fresh_expiration_count(Some(vec![5, 10, 15]), 10), Some(2));
    assert_eq!(fresh_expiration_count(Some(vec![0; 513]), 0), None);
    assert_eq!(fresh_expiration_count(Some(vec![0; 512]), 0), Some(512));
    assert_eq!(fresh_expiration_count(None, 0), None);
}

#[test]
fn decimal_i64_text_reads_as_str_parse_does() {
    assert_eq!(parse_i64("42"), Some(42));
    assert_eq!(parse_i64("+7"), Some(7));
    assert_eq!(parse_i64("-9223372036854775808"), Some(i64::MIN));
    assert_eq!(parse_i64("9223372036854775807"), Some(i64::MAX));
    assert_eq!(parse_i64("9223372036854775808"), None);
    assert_eq!(parse_i64(""), None);
    assert_eq!(parse_i64("-"), None);
    assert_eq!(parse_i64(" 1"), None);
    assert_eq!(parse_i64("1e3"), None);
    assert_eq!(parse_i64("007"), Some(7));
}
