use brickellstatus_runtime::ais::SourceEntry;
use brickellstatus_runtime::availability::{CollectorCursor, CursorEntry, HealthState, SourceState};
use brickellstatus_runtime::item::{CollectorItem, ItemKind, SourceLink};
use brickellstatus_runtime::json::{JsonMember, JsonObject, JsonValue};
use brickellstatus_runtime::refresh::{
    prepare_source, record_outcome, source_is_due, CollectedBatch, CollectionOutcome, ScheduledSource,
};
use brickellstatus_runtime::runtime::{RuntimeConfig, TimeSpan};

const NOW_MS: i64 = 1_786_741_200_000;

fn registration(id: &str, minimum_secs: u64) -> ScheduledSource {
    ScheduledSource {
        id: id.into(),
        channel_id: "bridge.brickell".into(),
        fail_closed_on_error: true,
        minimum_interval: TimeSpan::from_secs(minimum_secs),
    }
}

fn bridge_item(key: &str, relation: &str, state: &str) -> CollectorItem {
    CollectorItem {
        id: format!("fl511:bridge:{key}"),
        kind: ItemKind::Bridge,
        title: key.into(),
        summary: None,
        observed_at_ms: None,
        starts_at_ms: None,
        ends_at_ms: None,
        location: None,
        source: SourceLink { name: "Florida 511".into(), url: None },
        attributes: JsonObject {
            members: vec![
                JsonMember { key: "relation".into(), value: JsonValue::String(relation.into()) },
                JsonMember { key: "selector_key".into(), value: JsonValue::String(key.into()) },
                JsonMember { key: "state".into(), value: JsonValue::String(state.into()) },
            ],
        },
    }
}

fn batch(items: Vec<CollectorItem>, not_modified: bool) -> CollectedBatch {
    CollectedBatch {
        items,
        health: HealthState::Healthy,
        health_message: Some("ok".into()),
        cursor: CollectorCursor {
            metadata: vec![CursorEntry { key: "etag".into(), value: "abc".into() }],
        },
        not_modified,
    }
}

#[test]
fn a_new_registration_gets_an_empty_source_that_is_due() {
    let mut sources: Vec<SourceEntry> = Vec::new();
    let k = prepare_source(&mut sources, &registration("fl511.bridge.brickell", 0));
    assert_eq!(k, 0);
    assert_eq!(sources.len(), 1);
    assert_eq!(sources[0].state.channel_id, "bridge.brickell");
    assert!(sources[0].state.fail_closed_on_error);
    assert!(source_is_due(&sources[0].state, NOW_MS, false));
    let again = prepare_source(&mut sources, &registration("fl511.bridge.brickell", 0));
    assert_eq!((again, sources.len()), (0, 1));
}

#[test]
fn an_answer_resets_failures_and_waits_out_the_minimum_interval() {
    let reg = registration("pilots.board", 600);
    let mut source = SourceState::empty("old.channel");
    source.failure_count = 3;
    source.last_error = Some("HTTP 500".into());
    record_outcome(&mut source, &reg, CollectionOutcome::Batch(batch(vec![bridge_item("brickell", "target", "down")], false)), NOW_MS, &RuntimeConfig::default());
    assert_eq!(source.channel_id, "bridge.brickell");
    assert_eq!(source.failure_count, 0);
    assert_eq!(source.last_error, None);
    assert_eq!(source.last_success_ms, Some(NOW_MS));
    assert_eq!(source.next_eligible_ms, Some(NOW_MS + 600_000));
    assert_eq!(source.items.len(), 1);
    assert_eq!(source.reported_health, HealthState::Healthy);
    assert!(!source_is_due(&source, NOW_MS + 599_999, false));
    assert!(source_is_due(&source, NOW_MS + 599_999, true));
    assert!(source_is_due(&source, NOW_MS + 600_000, false));

    record_outcome(&mut source, &reg, CollectionOutcome::Batch(batch(Vec::new(), true)), NOW_MS + 1, &RuntimeConfig::default());
    assert_eq!(source.items.len(), 1, "a not-modified answer keeps the items");
}

#[test]
fn failures_back_off_from_the_configured_start() {
    let reg = registration("weather.area.miami", 0);
    let config = RuntimeConfig::default();
    let mut source = SourceState::empty("weather.miami");
    record_outcome(&mut source, &reg, CollectionOutcome::Failed("timeout".into()), NOW_MS, &config);
    assert_eq!(source.failure_count, 1);
    assert_eq!(source.next_eligible_ms, Some(NOW_MS + 15_000));
    assert_eq!(source.last_error.as_deref(), Some("timeout"));
    assert_eq!(source.last_success_ms, None);
    record_outcome(&mut source, &reg, CollectionOutcome::Failed("timeout".into()), NOW_MS, &config);
    assert_eq!(source.next_eligible_ms, Some(NOW_MS + 30_000));
}

#[test]
fn fl511_answers_record_span_changes() {
    let reg = registration("fl511.bridge.brickell", 0);
    let config = RuntimeConfig::default();
    let mut source = SourceState::empty("bridge.brickell");
    record_outcome(&mut source, &reg, CollectionOutcome::Batch(batch(vec![bridge_item("sw_2_ave", "upstream", "down")], false)), NOW_MS, &config);
    assert!(source.bridge_transitions.is_empty());
    record_outcome(&mut source, &reg, CollectionOutcome::Batch(batch(vec![bridge_item("sw_2_ave", "upstream", "up")], false)), NOW_MS + 60_000, &config);
    assert_eq!(source.bridge_transitions.len(), 1);
    assert_eq!(source.bridge_transitions[0].to_state, "up");

    let other = registration("pilots.board", 0);
    let mut board = SourceState::empty("bridge.brickell");
    record_outcome(&mut board, &other, CollectionOutcome::Batch(batch(vec![bridge_item("sw_2_ave", "upstream", "down")], false)), NOW_MS, &config);
    record_outcome(&mut board, &other, CollectionOutcome::Batch(batch(vec![bridge_item("sw_2_ave", "upstream", "up")], false)), NOW_MS + 60_000, &config);
    assert!(board.bridge_transitions.is_empty(), "only FL511 readings are transitions");
}

#[test]
fn a_scheduled_source_is_built_up_from_its_ids() {
    let plain = ScheduledSource::new("fl511.bridge.brickell", "bridge.brickell");
    assert_eq!(plain.id, "fl511.bridge.brickell");
    assert_eq!(plain.channel_id, "bridge.brickell");
    assert!(!plain.fail_closed_on_error);
    assert!(plain.minimum_interval.is_zero());
    let tuned = plain
        .with_minimum_interval(TimeSpan::from_secs(300))
        .fail_closed_on_error();
    assert!(tuned.fail_closed_on_error);
    assert_eq!(tuned.minimum_interval.as_nanos(), 300_000_000_000);
    assert_eq!(tuned.id, "fl511.bridge.brickell");
}
