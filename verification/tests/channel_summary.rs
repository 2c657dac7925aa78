use brickellstatus_runtime::catalog::FeedCatalog;
use brickellstatus_runtime::dto::{
    AppPreferences, AvailabilityDto, BridgeStateDto, ChannelKindDto, DecisionSnapshot,
};
use brickellstatus_runtime::item::{CollectorItem, ItemKind, SourceLink};
use brickellstatus_runtime::json::{JsonMember, JsonNumber, JsonObject, JsonValue};
use brickellstatus_runtime::number::{Decimal, Real};
use brickellstatus_runtime::rules::ChannelCoverage;
use brickellstatus_runtime::summary::{
    area_context_label, channel_summary, earthquake_matches_scope, MeasuredFindings,
};

const NOW_MS: i64 = 1_786_741_200_000;

fn shipped() -> AppPreferences {
    AppPreferences::defaults(&FeedCatalog {
        schema_version: 1,
        verified_on: "2025-01-01".into(),
        sections: Vec::new(),
    })
}

fn text(value: &str) -> JsonValue {
    JsonValue::String(value.into())
}

fn earthquake_item(id: &str, now_ms: i64) -> CollectorItem {
    CollectorItem {
        id: id.into(),
        kind: ItemKind::Earthquake,
        title: "M 7.2 fixture earthquake".into(),
        summary: Some("Fixture earthquake".into()),
        observed_at_ms: Some(now_ms),
        starts_at_ms: None,
        ends_at_ms: None,
        location: None,
        source: SourceLink { name: "USGS".into(), url: None },
        attributes: JsonObject {
            members: vec![
                JsonMember { key: "magnitude".into(), value: JsonValue::Number(JsonNumber::Float(Decimal::new(72, -1))) },
                JsonMember { key: "status".into(), value: text("reviewed") },
            ],
        },
    }
}

fn tropical_item(id: &str) -> CollectorItem {
    CollectorItem {
        id: format!("nhc:{id}"),
        kind: ItemKind::TropicalCyclone,
        title: "TS Fixture".into(),
        summary: Some("TS Fixture · 50 kt".into()),
        observed_at_ms: Some(NOW_MS),
        starts_at_ms: None,
        ends_at_ms: None,
        location: None,
        source: SourceLink { name: "National Hurricane Center".into(), url: None },
        attributes: JsonObject { members: Vec::new() },
    }
}

fn clear_decision() -> DecisionSnapshot {
    DecisionSnapshot {
        channel_id: "bridge.brickell".into(),
        subject: "Brickell Avenue".into(),
        state: BridgeStateDto::Clear,
        state_label: "No opening likely".into(),
        meaning: "No actionable bridge evidence.".into(),
        action: "No opening activity is currently detected.".into(),
        eta_min: None,
        eta_max: None,
        confidence_bps: Some(0),
        confidence_label: Some("Low estimate".into()),
        confidence_basis: None,
        next_legal_slot: None,
        opening_allowed_now: false,
        availability: AvailabilityDto::Offline,
        source_age_seconds: 0,
    }
}

fn fresh_coverage() -> ChannelCoverage {
    ChannelCoverage {
        availability: AvailabilityDto::Fresh,
        age_seconds: 0,
        total_sources: 1,
        usable_sources: 1,
        fresh_sources: 1,
    }
}

fn findings(near: Vec<bool>) -> MeasuredFindings {
    MeasuredFindings {
        weather_summary: "Dry".into(),
        weather_active: false,
        markets_summary: "No quote available".into(),
        markets_active: false,
        cyclone_near: near,
    }
}

#[test]
fn earthquakes_require_current_non_deleted_event_timestamps() {
    let now_ms = NOW_MS;
    let preferences = shipped();
    let channel = &preferences.profile.channels[5];
    assert_eq!(channel.kind, ChannelKindDto::Earthquake);
    let valid = earthquake_item("usgs:valid", now_ms);
    assert!(earthquake_matches_scope(&valid, channel, now_ms));

    let mut missing_time = valid.clone();
    missing_time.observed_at_ms = None;
    assert!(!earthquake_matches_scope(&missing_time, channel, now_ms));

    let mut future = valid.clone();
    future.observed_at_ms = Some(now_ms + 5 * 60_000 + 1);
    assert!(!earthquake_matches_scope(&future, channel, now_ms));

    let mut deleted = valid;
    deleted.attributes.insert("status".into(), text("deleted"));
    assert!(!earthquake_matches_scope(&deleted, channel, now_ms));

    let mut missing_status = earthquake_item("usgs:missing-status", now_ms);
    missing_status.attributes.members.retain(|member| member.key != "status");
    assert!(!earthquake_matches_scope(&missing_status, channel, now_ms));

    let mut unknown_status = earthquake_item("usgs:unknown-status", now_ms);
    unknown_status.attributes.insert("status".into(), text("superseded"));
    assert!(!earthquake_matches_scope(&unknown_status, channel, now_ms));
}

#[test]
fn earthquake_scope_bounds_magnitude_and_age_exactly() {
    let mut channel = shipped().profile.channels[5].clone();
    channel.scope.insert("minimumMagnitude".into(), JsonValue::Number(JsonNumber::Float(Decimal::new(72, -1))));
    channel.scope.insert("eventAgeMinutes".into(), JsonValue::Number(JsonNumber::Integer(60)));
    let at_limit = earthquake_item("usgs:edge", NOW_MS - 60 * 60_000);
    assert!(earthquake_matches_scope(&at_limit, &channel, NOW_MS));
    let too_old = earthquake_item("usgs:old", NOW_MS - 60 * 60_000 - 1);
    assert!(!earthquake_matches_scope(&too_old, &channel, NOW_MS));
    let mut weaker = earthquake_item("usgs:weak", NOW_MS);
    weaker.attributes.insert("magnitude".into(), JsonValue::Number(JsonNumber::Float(Decimal::new(7199, -3))));
    assert!(!earthquake_matches_scope(&weaker, &channel, NOW_MS));
    let mut padded = earthquake_item("usgs:padded", NOW_MS);
    padded.attributes.insert("status".into(), text("  Automatic "));
    assert!(earthquake_matches_scope(&padded, &channel, NOW_MS));
}

#[test]
fn snapshot_area_context_names_enabled_selected_areas() {
    let mut preferences = shipped();
    let mut boston = preferences.areas[0].clone();
    boston.id = "area.boston".into();
    boston.label = "Boston, Massachusetts".into();
    boston.latitude = Real::Finite(Decimal::new(423_601, -4));
    boston.longitude = Real::Finite(Decimal::new(-710_589, -4));
    preferences.areas.push(boston);
    let channel = &mut preferences.profile.channels[1];
    channel.scope.insert(
        "areaIds".into(),
        JsonValue::Array(vec![text("area.miami"), text("area.boston")]),
    );
    let channel = preferences.profile.channels[1].clone();

    assert_eq!(
        area_context_label(&channel, &preferences.areas).as_deref(),
        Some("Miami, Florida / Boston, Massachusetts")
    );
    preferences.areas[1].weather_enabled = false;
    assert_eq!(
        area_context_label(&channel, &preferences.areas).as_deref(),
        Some("Miami, Florida")
    );
}

#[test]
fn more_than_three_areas_are_counted_after_the_first_three() {
    let mut preferences = shipped();
    let mut ids = Vec::new();
    for n in 0..5 {
        let mut area = preferences.areas[0].clone();
        area.id = format!("area.{n}");
        area.label = format!("Place {n}");
        ids.push(text(&area.id));
        preferences.areas.push(area);
    }
    let mut channel = preferences.profile.channels[1].clone();
    channel.scope.insert("areaIds".into(), JsonValue::Array(ids));
    assert_eq!(
        area_context_label(&channel, &preferences.areas).as_deref(),
        Some("Place 0 / Place 1 / Place 2 +2")
    );
    channel.scope.insert("areaIds".into(), JsonValue::Array(vec![text("area.nowhere")]));
    assert_eq!(area_context_label(&channel, &preferences.areas).as_deref(), Some("No enabled areas"));
    channel.scope.members.retain(|member| member.key != "areaIds");
    assert_eq!(area_context_label(&channel, &preferences.areas), None);
}

#[test]
fn a_cyclone_activates_only_when_it_is_marked_within_range() {
    let preferences = shipped();
    let mut channel = preferences.profile.channels[3].clone();
    channel.enabled = true;
    channel.scope.members.retain(|member| member.key != "areaIds");
    let coverage = fresh_coverage();

    let pacific = vec![tropical_item("ep052026")];
    let (summary, active) = channel_summary(
        ChannelKindDto::Hurricane, &channel, &pacific, &clear_decision(), &coverage, NOW_MS,
        &preferences.areas, &findings(vec![true]),
    );
    assert!(!active);
    assert_eq!(summary, "No active Atlantic cyclone");

    let distant = vec![tropical_item("al032026")];
    let (summary, active) = channel_summary(
        ChannelKindDto::Hurricane, &channel, &distant, &clear_decision(), &coverage, NOW_MS,
        &preferences.areas, &findings(vec![false]),
    );
    assert!(!active);
    assert_eq!(summary, "1 active Atlantic system(s) · none within range of a saved place");

    let near = vec![tropical_item("al092026"), tropical_item("AL102026")];
    let (summary, active) = channel_summary(
        ChannelKindDto::Hurricane, &channel, &near, &clear_decision(), &coverage, NOW_MS,
        &preferences.areas, &findings(vec![true, true]),
    );
    assert!(active);
    assert_eq!(summary, "2 Atlantic cyclone(s) within range");
}

#[test]
fn disabled_channels_and_unusable_coverage_never_activate() {
    let preferences = shipped();
    let mut channel = preferences.profile.channels[5].clone();
    channel.enabled = false;
    let items = vec![earthquake_item("usgs:a", NOW_MS)];
    let (summary, active) = channel_summary(
        ChannelKindDto::Earthquake, &channel, &items, &clear_decision(), &fresh_coverage(), NOW_MS,
        &preferences.areas, &findings(Vec::new()),
    );
    assert_eq!((summary.as_str(), active), ("Disabled", false));

    channel.enabled = true;
    let offline = ChannelCoverage {
        availability: AvailabilityDto::Offline,
        age_seconds: 0,
        total_sources: 2,
        usable_sources: 0,
        fresh_sources: 0,
    };
    let (summary, active) = channel_summary(
        ChannelKindDto::Earthquake, &channel, &items, &clear_decision(), &offline, NOW_MS,
        &preferences.areas, &findings(Vec::new()),
    );
    assert!(!active);
    assert_eq!(summary, "1 current earthquake · all sources offline; activation suppressed");
}

#[test]
fn the_bridge_summary_names_its_state_and_window() {
    let preferences = shipped();
    let channel = preferences.profile.channels[0].clone();
    let mut decision = clear_decision();
    decision.state = BridgeStateDto::Likely;
    decision.state_label = "Opening likely".into();
    decision.eta_min = Some(6);
    decision.eta_max = Some(10);
    let (summary, active) = channel_summary(
        ChannelKindDto::Bridge, &channel, &Vec::new(), &decision, &fresh_coverage(), NOW_MS,
        &preferences.areas, &findings(Vec::new()),
    );
    assert!(active);
    assert_eq!(summary, "Opening likely · 6–10 min");
}

#[test]
fn measured_channels_speak_with_the_rule_that_measured_them() {
    let preferences = shipped();
    let mut channel = preferences.profile.channels[6].clone();
    channel.enabled = true;
    let mut measured = findings(Vec::new());
    measured.markets_summary = "AMD 172.40 USD +6.46% OPEN · move ≥5.0%".into();
    measured.markets_active = true;
    let (summary, active) = channel_summary(
        ChannelKindDto::Markets, &channel, &Vec::new(), &clear_decision(), &fresh_coverage(), NOW_MS,
        &preferences.areas, &measured,
    );
    assert!(active);
    assert_eq!(summary, "AMD 172.40 USD +6.46% OPEN · move ≥5.0%");
}
