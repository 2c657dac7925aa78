use brickellstatus_runtime::bridge::{update_bridge_transitions, BridgeStateTransition};
use brickellstatus_runtime::dto::{
    AlertArea, AlertAreaSource, AppPreferences, AvailabilityDto, BridgeStateDto, ChannelKindDto,
    ChannelPreference, DeliveryStateDto, DestinationIdDto, DisplayTransport, InterruptPreset,
    OutputStateDto, SurfacePresence, WhatsAppRecipientConsent,
};
use brickellstatus_runtime::catalog::FeedCatalog;
use brickellstatus_runtime::item::{
    atlantic_cyclone, item_area_label, item_publisher, item_source_url, item_time_ms, lead_band,
    schedule_exempt, CollectorItem, ItemKind, Location, SourceLink,
};
use brickellstatus_runtime::json::{JsonMember, JsonObject, JsonValue};
use brickellstatus_runtime::number::{Decimal, Real};
use brickellstatus_runtime::rules::{
    area_enabled_for_channel, channel_coverage_summary, eq_ignore_ascii_case,
    news_item_is_breaking, official_alert_matches_scope, output_snapshots, ChannelCoverage,
};

fn text(value: &str) -> JsonValue {
    JsonValue::String(value.into())
}

fn attributes(members: Vec<(&str, JsonValue)>) -> JsonObject {
    JsonObject {
        members: members
            .into_iter()
            .map(|(key, value)| JsonMember { key: key.into(), value })
            .collect(),
    }
}

fn item(id: &str, kind: ItemKind, title: &str, attributes: JsonObject) -> CollectorItem {
    CollectorItem {
        id: id.into(),
        kind,
        title: title.into(),
        summary: None,
        observed_at_ms: None,
        starts_at_ms: None,
        ends_at_ms: None,
        location: Some(Location {
            latitude: Some(Real::Finite(Decimal::new(257617, -4))),
            longitude: Some(Real::Finite(Decimal::new(-801918, -4))),
            name: None,
        }),
        source: SourceLink {
            name: "National Weather Service".into(),
            url: Some("https://api.weather.gov/alerts/fixture".into()),
        },
        attributes,
    }
}

fn official_alert_item(id: &str, message_type: &str, status: &str, ends_ms: Option<i64>) -> CollectorItem {
    let mut alert = item(
        id,
        ItemKind::OfficialAlert,
        "Flash Flood Warning",
        attributes(vec![
            ("instruction", text("Move to higher ground now.")),
            ("message_type", text(message_type)),
            ("status", text(status)),
            ("severity", text("Severe")),
        ]),
    );
    alert.summary = Some("Fixture official warning".into());
    alert.ends_at_ms = ends_ms;
    alert
}

fn shipped() -> AppPreferences {
    AppPreferences::defaults(&FeedCatalog {
        schema_version: 1,
        verified_on: "2025-01-01".into(),
        sections: Vec::new(),
    })
}

#[test]
fn official_alerts_require_current_actual_alert_or_update_records() {
    let now_ms = 1_786_741_200_000;
    let preferences = shipped();
    let channel = &preferences.profile.channels[2];
    let future = now_ms + 30 * 60_000;

    let alert = official_alert_item("nws:alert", "Alert", "Actual", Some(future));
    let update = official_alert_item("nws:update", "Update", "actual", Some(future));
    let cancelled = official_alert_item("nws:cancel", "Cancel", "Actual", Some(future));
    let expired = official_alert_item("nws:expired", "Alert", "Actual", Some(now_ms));
    let missing_expiry = official_alert_item("nws:no-expiry", "Alert", "Actual", None);
    let exercise = official_alert_item("nws:exercise", "Alert", "Exercise", Some(future));
    let unknown_type = official_alert_item("nws:unknown", "Unknown", "Actual", Some(future));

    assert!(official_alert_matches_scope(&alert, channel, now_ms));
    assert!(official_alert_matches_scope(&update, channel, now_ms));
    assert!(!official_alert_matches_scope(&cancelled, channel, now_ms));
    assert!(!official_alert_matches_scope(&expired, channel, now_ms));
    assert!(!official_alert_matches_scope(&missing_expiry, channel, now_ms));
    assert!(!official_alert_matches_scope(&exercise, channel, now_ms));
    assert!(!official_alert_matches_scope(&unknown_type, channel, now_ms));
}

#[test]
fn official_statements_and_unlisted_severities_are_left_out() {
    let now_ms = 1_786_741_200_000;
    let preferences = shipped();
    let channel = &preferences.profile.channels[2];
    let future = now_ms + 60_000;
    let mut statement = official_alert_item("nws:statement", " alert ", "ACTUAL", Some(future));
    statement.title = "Special Weather STATEMENT".into();
    assert!(!official_alert_matches_scope(&statement, channel, now_ms));
    let mut minor = official_alert_item("nws:minor", "Alert", "Actual", Some(future));
    minor.attributes.insert("severity".into(), text("minor"));
    assert!(!official_alert_matches_scope(&minor, channel, now_ms));
    let mut extreme = official_alert_item("nws:extreme", "Alert", "Actual", Some(future));
    extreme.attributes.insert("severity".into(), text("extreme"));
    assert!(official_alert_matches_scope(&extreme, channel, now_ms));
}

#[test]
fn outputs_report_the_configured_transport_and_consent() {
    let mut preferences = shipped();
    let outputs = output_snapshots(&preferences);
    assert_eq!(outputs.len(), 3);
    assert_eq!(outputs[0].id, DestinationIdDto::Epaper);
    assert_eq!(outputs[0].state, OutputStateDto::Ready);
    assert_eq!(outputs[0].detail, "Preview transport selected");
    assert_eq!(outputs[1].state, OutputStateDto::Unconfigured);
    assert_eq!(outputs[1].detail, "Optional · connect Meta Cloud API");
    assert_eq!(outputs[1].delivery_state, Some(DeliveryStateDto::Suppressed));
    assert_eq!(outputs[2].id, DestinationIdDto::Desktop);
    assert_eq!(outputs[2].state, OutputStateDto::Ready);

    preferences.display.transport = DisplayTransport::Usb;
    preferences.whatsapp.enabled = true;
    preferences.whatsapp.recipient = "+13055550123".into();
    preferences.whatsapp.consent = WhatsAppRecipientConsent::OptedIn;
    preferences.whatsapp.consent_recipient = Some("+13055550123".into());
    preferences.whatsapp.consent_recorded_at_millis = Some(1);
    preferences.whatsapp.token_configured = true;
    let outputs = output_snapshots(&preferences);
    assert_eq!(outputs[0].state, OutputStateDto::Degraded);
    assert_eq!(outputs[1].state, OutputStateDto::Ready);
    assert_eq!(outputs[1].delivery_state, None);

    preferences.whatsapp.consent_recipient = Some("+13055559999".into());
    let outputs = output_snapshots(&preferences);
    assert_eq!(outputs[1].detail, "WhatsApp opt-in is not bound to the current recipient");
}

fn area(country_code: Option<&str>, source: AlertAreaSource) -> AlertArea {
    AlertArea {
        id: "area.test".into(),
        label: "Test".into(),
        latitude: Real::Finite(Decimal::new(0, 0)),
        longitude: Real::Finite(Decimal::new(0, 0)),
        time_zone: "UTC".into(),
        country_code: country_code.map(str::to_owned),
        admin_area: None,
        source,
        enabled: true,
        weather_enabled: false,
        official_alerts_enabled: true,
        tropical_context_enabled: true,
    }
}

fn channel(kind: ChannelKindDto) -> ChannelPreference {
    ChannelPreference {
        id: "channel.test".into(),
        kind,
        title: "Test".into(),
        enabled: true,
        presence: SurfacePresence::ActiveOnly,
        interrupt_preset: InterruptPreset::Recommended,
        destinations: Vec::new(),
        max_age_minutes: 5,
        max_items: 10,
        rotation_seconds: 24,
        scope: JsonObject::new(),
    }
}

#[test]
fn official_alerts_cover_only_us_or_hand_placed_areas() {
    let official = channel(ChannelKindDto::Official);
    assert!(area_enabled_for_channel(&area(Some("us"), AlertAreaSource::Search), &official));
    assert!(!area_enabled_for_channel(&area(Some("CA"), AlertAreaSource::Search), &official));
    assert!(area_enabled_for_channel(&area(None, AlertAreaSource::Manual), &official));
    assert!(!area_enabled_for_channel(&area(None, AlertAreaSource::Search), &official));
    assert!(!area_enabled_for_channel(&area(None, AlertAreaSource::Manual), &channel(ChannelKindDto::Weather)));
    assert!(area_enabled_for_channel(&area(None, AlertAreaSource::Manual), &channel(ChannelKindDto::News)));
}

#[test]
fn coverage_summaries_say_what_is_missing() {
    let coverage = |availability, total, usable, fresh| ChannelCoverage {
        availability,
        age_seconds: 0,
        total_sources: total,
        usable_sources: usable,
        fresh_sources: fresh,
    };
    let summary = || "Rain later".to_string();
    assert_eq!(
        channel_coverage_summary(summary(), ChannelKindDto::Weather, &coverage(AvailabilityDto::Fresh, 2, 2, 2)),
        "Rain later"
    );
    assert_eq!(
        channel_coverage_summary(summary(), ChannelKindDto::Weather, &coverage(AvailabilityDto::Delayed, 0, 0, 0)),
        "Rain later · no collector configured"
    );
    assert_eq!(
        channel_coverage_summary(summary(), ChannelKindDto::Weather, &coverage(AvailabilityDto::Offline, 2, 0, 0)),
        "Rain later · all sources offline; activation suppressed"
    );
    assert_eq!(
        channel_coverage_summary(summary(), ChannelKindDto::News, &coverage(AvailabilityDto::Delayed, 3, 2, 1)),
        "Rain later · partial coverage (2/3 sources usable); stale/offline items suppressed"
    );
    assert_eq!(
        channel_coverage_summary(summary(), ChannelKindDto::News, &coverage(AvailabilityDto::Delayed, 3, 3, 1)),
        "Rain later · source responses delayed"
    );
    assert_eq!(
        channel_coverage_summary(summary(), ChannelKindDto::Bridge, &coverage(AvailabilityDto::Offline, 0, 0, 0)),
        "Rain later"
    );
}

#[test]
fn item_facts_read_their_own_fields() {
    let mut news = item("rss:1", ItemKind::News, "Storm update", JsonObject::new());
    assert_eq!(item_time_ms(&news), i64::MIN);
    news.starts_at_ms = Some(5);
    assert_eq!(item_time_ms(&news), 5);
    news.observed_at_ms = Some(7);
    assert_eq!(item_time_ms(&news), 7);
    assert_eq!(item_source_url(&news).as_deref(), Some("https://api.weather.gov/alerts/fixture"));
    assert_eq!(item_publisher(&news), "National Weather Service");
    news.source.name = "   ".into();
    assert_eq!(item_publisher(&news), "Syndicated feed");
    assert_eq!(item_area_label(&news), None);
    news.attributes.insert("area_label".into(), text("Miami"));
    assert_eq!(item_area_label(&news).as_deref(), Some("Miami"));
}

#[test]
fn breaking_news_is_found_in_title_summary_or_category() {
    let mut news = item("rss:1", ItemKind::News, "Council meets", JsonObject::new());
    assert!(!news_item_is_breaking(&news));
    news.summary = Some("BREAKING: road closed".into());
    assert!(news_item_is_breaking(&news));
    news.summary = None;
    news.attributes.insert(
        "categories".into(),
        JsonValue::Array(vec![JsonValue::Bool(true), text("Local"), text("Breaking News")]),
    );
    assert!(news_item_is_breaking(&news));
}

#[test]
fn atlantic_storms_are_named_by_their_basin() {
    let storm = |id: &str| item(id, ItemKind::TropicalCyclone, "Storm", JsonObject::new());
    assert!(atlantic_cyclone(&storm("nhc:al052025")));
    assert!(atlantic_cyclone(&storm("nhc:AL052025")));
    assert!(!atlantic_cyclone(&storm("nhc:ep052025")));
    assert!(!atlantic_cyclone(&storm("al052025")));
    assert!(!atlantic_cyclone(&item("nhc:al05", ItemKind::News, "Storm", JsonObject::new())));
}

#[test]
fn small_labels_follow_their_tables() {
    assert_eq!(lead_band(-3), "0-5");
    assert_eq!(lead_band(6), "6-15");
    assert_eq!(lead_band(30), "16-30");
    assert_eq!(lead_band(60), "31-60");
    assert_eq!(lead_band(61), "60+");
    assert!(schedule_exempt(Some("tug + tow")));
    assert!(schedule_exempt(Some("pilot")));
    assert!(!schedule_exempt(Some("Tug")));
    assert!(!schedule_exempt(None));
    assert!(eq_ignore_ascii_case("Severe", "sEVERE"));
    assert!(!eq_ignore_ascii_case("Severe", "Severe "));
    let _ = BridgeStateDto::Clear;
}

fn bridge_item(key: &str, relation: &str, state: &str) -> CollectorItem {
    item(
        &format!("fl511:bridge:{key}"),
        ItemKind::Bridge,
        &key.replace('_', " "),
        attributes(vec![
            ("relation", text(relation)),
            ("selector_key", text(key)),
            ("state", text(state)),
        ]),
    )
}

fn recorded(key: &str, at: i64) -> BridgeStateTransition {
    BridgeStateTransition {
        bridge_key: key.into(),
        bridge_name: key.into(),
        relation: "upstream".into(),
        from_state: "down".into(),
        to_state: "up".into(),
        occurred_at_ms: at,
    }
}

#[test]
fn transitions_record_changes_and_forget_old_ones() {
    let now_ms = 1_786_741_200_000;
    let previous = vec![bridge_item("sw_2_ave", "upstream", "down"), bridge_item("brickell", "target", "down")];
    let current = vec![
        bridge_item("sw_2_ave", "upstream", "up"),
        bridge_item("brickell", "target", "down"),
        bridge_item("nw_5_st", "upstream", "up"),
        bridge_item("odd", "ais", "up"),
    ];
    let mut transitions = vec![recorded("w_flagler", now_ms - 46 * 60_000), recorded("sw_1_st", now_ms - 10 * 60_000)];
    update_bridge_transitions(&previous, &current, now_ms, &mut transitions);
    assert_eq!(transitions.len(), 2);
    assert_eq!(transitions[0].bridge_key, "sw_1_st");
    assert_eq!(transitions[1].bridge_key, "sw_2_ave");
    assert_eq!(transitions[1].from_state, "down");
    assert_eq!(transitions[1].to_state, "up");
    assert_eq!(transitions[1].relation, "upstream");
    assert_eq!(transitions[1].occurred_at_ms, now_ms);

    let mut many = (0..70).map(|index| recorded("sw_1_st", now_ms - index)).collect::<Vec<_>>();
    update_bridge_transitions(&[], &[], now_ms, &mut many);
    assert_eq!(many.len(), 64);
    assert_eq!(many[0].occurred_at_ms, now_ms - 6);
}
