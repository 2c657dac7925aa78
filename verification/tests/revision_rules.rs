use brickellstatus_runtime::ais::SourceEntry;
use brickellstatus_runtime::availability::SourceState;
use brickellstatus_runtime::catalog::FeedCatalog;
use brickellstatus_runtime::dto::{
    AisProvider, AisSettings, AppPreferences, AvailabilityDto, SourceHealth, SystemStatusDto,
};
use brickellstatus_runtime::item::{CollectorItem, ItemKind, SourceLink};
use brickellstatus_runtime::json::{JsonMember, JsonObject, JsonValue};
use brickellstatus_runtime::revision::{
    bridge_states_to_record, prediction_resets, retained_sources, system_status,
};

const NOW_MS: i64 = 1_786_741_200_000;

fn bridge(id: &str, members: &[(&str, &str)]) -> CollectorItem {
    CollectorItem {
        id: id.into(),
        kind: ItemKind::Bridge,
        title: format!("{id} bridge"),
        summary: None,
        observed_at_ms: None,
        starts_at_ms: None,
        ends_at_ms: None,
        location: None,
        source: SourceLink { name: "Florida 511".into(), url: None },
        attributes: JsonObject {
            members: members
                .iter()
                .map(|(key, value)| JsonMember {
                    key: (*key).into(),
                    value: JsonValue::String((*value).into()),
                })
                .collect(),
        },
    }
}

fn span(key: &str, relation: &str, state: &str) -> CollectorItem {
    bridge(key, &[("selector_key", key), ("relation", relation), ("state", state)])
}

fn entry(source_id: &str, channel_id: &str, items: Vec<CollectorItem>) -> SourceEntry {
    let mut state = SourceState::empty(channel_id);
    state.items = items;
    SourceEntry { source_id: source_id.into(), state }
}

#[test]
fn a_refresh_records_the_fl511_target_and_upstream_states() {
    let sources = vec![
        entry(
            "fl511.bridge.brickell",
            "bridge.brickell",
            vec![
                span("brickell", "target", "up"),
                span("sw_1_st", "upstream", "unknown"),
                span("vessel", "ais", "up"),
                bridge("nokey", &[("relation", "target"), ("state", "down")]),
                span("odd", "upstream", "stuck"),
            ],
        ),
        entry("aisstream.brickell", "bridge.brickell", vec![span("brickell", "target", "down")]),
    ];
    let active = vec![
        ("aisstream.brickell".to_string(), "bridge.brickell".to_string()),
        ("fl511.bridge.brickell".to_string(), "bridge.brickell".to_string()),
        ("fl511.missing".to_string(), "bridge.brickell".to_string()),
    ];
    let records = bridge_states_to_record(&sources, &active, NOW_MS);
    assert_eq!(records.len(), 2);
    assert_eq!(records[0].source_id, "fl511.bridge.brickell");
    assert_eq!(records[0].bridge_key, "brickell");
    assert_eq!(records[0].bridge_name, "brickell bridge");
    assert_eq!(records[0].relation, "target");
    assert_eq!(records[0].state, "up");
    assert_eq!(records[0].observed_at_ms, NOW_MS);
    assert_eq!(records[1].bridge_key, "sw_1_st");
    assert_eq!(records[1].state, "unknown");
}

#[test]
fn a_fetch_that_loses_several_bridges_records_none_of_their_unknowns() {
    let sources = vec![entry(
        "fl511.bridge.brickell",
        "bridge.brickell",
        vec![
            span("brickell", "target", "unknown"),
            span("sw_1_st", "upstream", "unknown"),
            span("sw_2_ave", "upstream", "down"),
        ],
    )];
    let active = vec![("fl511.bridge.brickell".to_string(), "bridge.brickell".to_string())];
    let records = bridge_states_to_record(&sources, &active, NOW_MS);
    assert_eq!(records.len(), 1);
    assert_eq!(records[0].bridge_key, "sw_2_ave");
}

#[test]
fn a_save_drops_the_sources_of_changed_channels_and_of_changed_ais() {
    let sources = vec![
        entry("openmeteo.a", "weather.home", Vec::new()),
        entry("fl511.bridge.brickell", "bridge.brickell", Vec::new()),
        entry("aisstream.brickell", "bridge.brickell", Vec::new()),
        entry("nws.a", "official.home", Vec::new()),
    ];
    let changed = vec!["weather.home".to_string()];
    let kept = retained_sources(sources.clone(), &changed, false);
    let ids = kept.iter().map(|e| e.source_id.as_str()).collect::<Vec<_>>();
    assert_eq!(ids, vec!["fl511.bridge.brickell", "aisstream.brickell", "nws.a"]);
    let kept = retained_sources(sources, &changed, true);
    let ids = kept.iter().map(|e| e.source_id.as_str()).collect::<Vec<_>>();
    assert_eq!(ids, vec!["fl511.bridge.brickell", "nws.a"]);
}

#[test]
fn only_a_bridge_change_or_an_ais_change_discards_the_prediction() {
    let preferences = AppPreferences::defaults(&FeedCatalog {
        schema_version: 1,
        verified_on: "2025-01-01".into(),
        sections: Vec::new(),
    });
    let channels = &preferences.profile.channels;
    let ais = AisSettings { enabled: true, provider: AisProvider::Aisstream, api_key_configured: true };
    let other = AisSettings { api_key_configured: false, ..ais };
    assert!(!prediction_resets(channels, channels, &vec!["weather.home".to_string()], &ais, &ais));
    assert!(prediction_resets(channels, channels, &vec!["bridge.brickell".to_string()], &ais, &ais));
    assert!(prediction_resets(channels, channels, &Vec::new(), &ais, &other));
    assert!(prediction_resets(&[], channels, &vec!["bridge.brickell".to_string()], &ais, &ais));
}

fn health(availability: AvailabilityDto) -> SourceHealth {
    SourceHealth {
        source_id: "s".into(),
        channel_id: "c".into(),
        availability,
        detail: String::new(),
        failure_count: 0,
        last_attempt_at: None,
        last_success_at: None,
    }
}

#[test]
fn the_system_is_nominal_only_when_every_collector_is_fresh() {
    assert_eq!(system_status(&[]), (SystemStatusDto::Offline, 0, 0));
    assert_eq!(
        system_status(&[health(AvailabilityDto::Stale), health(AvailabilityDto::Delayed)]),
        (SystemStatusDto::Offline, 0, 2)
    );
    assert_eq!(
        system_status(&[health(AvailabilityDto::Fresh), health(AvailabilityDto::Offline)]),
        (SystemStatusDto::Degraded, 1, 2)
    );
    assert_eq!(
        system_status(&[health(AvailabilityDto::Fresh), health(AvailabilityDto::Fresh)]),
        (SystemStatusDto::Nominal, 2, 2)
    );
}

#[test]
fn saving_unchanged_preferences_keeps_every_source_and_the_prediction() {
    let preferences = AppPreferences::defaults(&FeedCatalog {
        schema_version: 1,
        verified_on: "2025-01-01".into(),
        sections: Vec::new(),
    });
    let changed = brickellstatus_runtime::changes::changed_channel_ids(&preferences, &preferences);
    assert!(changed.is_empty());
    let sources = vec![
        entry("openmeteo.a", "weather.home", Vec::new()),
        entry("aisstream.brickell", "bridge.brickell", Vec::new()),
    ];
    let kept = retained_sources(sources.clone(), &changed, preferences.ais != preferences.ais);
    assert_eq!(kept, sources);
    let channels = &preferences.profile.channels;
    assert!(!prediction_resets(channels, channels, &changed, &preferences.ais, &preferences.ais));
}

fn fl511_item(id: &str, title: &str, relation: &str, state: &str) -> CollectorItem {
    let selector_key = if relation == "target" { "brickell" } else { id };
    let mut item = bridge(
        &format!("fl511:bridge:{id}"),
        &[("relation", relation), ("selector_key", selector_key), ("state", state)],
    );
    item.title = title.into();
    item.summary = Some(format!("Bridge {state}"));
    item.attributes.insert("state_conflict".into(), JsonValue::Bool(false));
    item
}

fn intervals_after(items: Vec<CollectorItem>, bridge_key: &str) -> Vec<String> {
    let sources = vec![entry("fl511.bridge.brickell", "bridge.brickell", items)];
    let active = vec![("fl511.bridge.brickell".to_string(), "bridge.brickell".to_string())];
    bridge_states_to_record(&sources, &active, NOW_MS)
        .into_iter()
        .filter(|record| record.bridge_key == bridge_key)
        .map(|record| record.state)
        .collect()
}

#[test]
fn a_single_unresolved_bridge_is_still_recorded() {
    let states = intervals_after(
        vec![
            fl511_item("brickell", "Brickell Avenue Bridge", "target", "up"),
            fl511_item("sw_2_ave", "SW 2 Ave Bridge", "upstream", "unknown"),
            fl511_item("sw_1_st", "SW 1 St Bridge", "upstream", "down"),
        ],
        "sw_2_ave",
    );
    assert_eq!(states, vec!["unknown".to_string()]);
}

#[test]
fn correlated_unknown_readings_are_not_recorded_as_observations() {
    let states = intervals_after(
        vec![
            fl511_item("brickell", "Brickell Avenue Bridge", "target", "up"),
            fl511_item("sw_2_ave", "SW 2 Ave Bridge", "upstream", "unknown"),
            fl511_item("sw_1_st", "SW 1 St Bridge", "upstream", "unknown"),
        ],
        "sw_2_ave",
    );
    assert!(states.is_empty(), "expected no interval, got {states:?}");
}

#[test]
fn a_resolved_bridge_is_still_recorded_during_a_correlated_fault() {
    let states = intervals_after(
        vec![
            fl511_item("brickell", "Brickell Avenue Bridge", "target", "up"),
            fl511_item("sw_2_ave", "SW 2 Ave Bridge", "upstream", "unknown"),
            fl511_item("sw_1_st", "SW 1 St Bridge", "upstream", "unknown"),
        ],
        "brickell",
    );
    assert_eq!(states, vec!["up".to_string()]);
}
