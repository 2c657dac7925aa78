use brickellstatus_runtime::ais::SourceEntry;
use brickellstatus_runtime::availability::{HealthState, SourceState};
use brickellstatus_runtime::bridge::{BridgeStateTransition, OutboundProgressStage};
use brickellstatus_runtime::catalog::FeedCatalog;
use brickellstatus_runtime::dto::{
    AppPreferences, AvailabilityDto, BridgeStateDto, ChannelPreference, EvidenceStateDto,
    VesselMovementDto,
};
use brickellstatus_runtime::evidence::{
    availability_dto, bridge_evidence, bridge_fact, decision_snapshot, evidence_list,
    evidence_snapshots, model_status, normalized_bridge_observation, AvailabilityStatus,
    BridgeObservation, Contribution, ContributionDisposition, ControllerState, EtaRange,
    EvidenceKind, ModelAvailability, Prediction,
};
use brickellstatus_runtime::item::{CollectorItem, ItemKind, SourceLink};
use brickellstatus_runtime::json::{JsonMember, JsonNumber, JsonObject, JsonValue};
use brickellstatus_runtime::runtime::RuntimeError;

const NOW_MS: i64 = 1_786_741_200_000;

fn text(value: &str) -> JsonValue {
    JsonValue::String(value.into())
}

fn integer(value: i128) -> JsonValue {
    JsonValue::Number(JsonNumber::Integer(value))
}

fn item(id: &str, kind: ItemKind, members: Vec<(&str, JsonValue)>) -> CollectorItem {
    CollectorItem {
        id: id.into(),
        kind,
        title: format!("Title {id}"),
        summary: None,
        observed_at_ms: None,
        starts_at_ms: None,
        ends_at_ms: None,
        location: None,
        source: SourceLink { name: "Florida 511".into(), url: None },
        attributes: JsonObject {
            members: members
                .into_iter()
                .map(|(key, value)| JsonMember { key: key.into(), value })
                .collect(),
        },
    }
}

fn target(state: &str) -> CollectorItem {
    item("target", ItemKind::Bridge, vec![("relation", text("target")), ("state", text(state))])
}

fn ais(members: Vec<(&str, JsonValue)>) -> CollectorItem {
    let mut all = vec![("relation", text("ais")), ("state", text("tracked"))];
    all.extend(members);
    item("vessel", ItemKind::Bridge, all)
}

#[test]
fn the_target_bridge_reports_its_controller() {
    assert_eq!(
        bridge_fact(&target("up"), &[]),
        Some(BridgeObservation::Controller { state: ControllerState::Open })
    );
    assert_eq!(
        bridge_fact(&target("down"), &[]),
        Some(BridgeObservation::Controller { state: ControllerState::Closed })
    );
    assert_eq!(
        bridge_fact(&target("stuck"), &[]),
        Some(BridgeObservation::Controller { state: ControllerState::Unknown })
    );
    let mut weather = target("up");
    weather.kind = ItemKind::WeatherCurrent;
    assert_eq!(bridge_fact(&weather, &[]), None);
    let upstream =
        item("up", ItemKind::Bridge, vec![("relation", text("upstream")), ("state", text("up"))]);
    assert_eq!(bridge_fact(&upstream, &[]), None);
    let stateless = item("t", ItemKind::Bridge, vec![("relation", text("target"))]);
    assert_eq!(bridge_fact(&stateless, &[]), None);
}

#[test]
fn an_ais_item_reports_a_whole_track_or_nothing() {
    let full = ais(vec![
        ("movement", text("approaching")),
        ("route_intersects", JsonValue::Bool(true)),
        ("eta_min_minutes", integer(4)),
        ("eta_max_minutes", integer(9)),
        ("mmsi", text("367000001")),
    ]);
    assert_eq!(
        bridge_fact(&full, &[]),
        Some(BridgeObservation::AisTrack {
            mmsi: Some("367000001".into()),
            vessel_name: None,
            movement: VesselMovementDto::Approaching,
            route_intersects: true,
            schedule_exempt: false,
            eta: Some(EtaRange { earliest: 4, latest: 9 }),
            opening_propensity: None,
        })
    );
    let no_eta = ais(vec![("movement", text("diverging")), ("route_intersects", JsonValue::Bool(false))]);
    assert!(matches!(
        bridge_fact(&no_eta, &[]),
        Some(BridgeObservation::AisTrack { eta: None, movement: VesselMovementDto::Diverging, .. })
    ));
    let half_eta = ais(vec![
        ("movement", text("approaching")),
        ("route_intersects", JsonValue::Bool(true)),
        ("eta_min_minutes", integer(4)),
    ]);
    assert_eq!(bridge_fact(&half_eta, &[]), None);
    let huge_eta = ais(vec![
        ("movement", text("approaching")),
        ("route_intersects", JsonValue::Bool(true)),
        ("eta_min_minutes", integer(4)),
        ("eta_max_minutes", integer(70_000)),
    ]);
    assert_eq!(bridge_fact(&huge_eta, &[]), None);
    let odd_movement = ais(vec![("movement", text("drifting")), ("route_intersects", JsonValue::Bool(true))]);
    assert_eq!(bridge_fact(&odd_movement, &[]), None);
    let no_route = ais(vec![("movement", text("stationary"))]);
    assert_eq!(bridge_fact(&no_route, &[]), None);
}

fn live(now: i64) -> ModelAvailability {
    ModelAvailability {
        status: AvailabilityStatus::Live,
        checked_at_ms: now,
        last_success_at_ms: Some(now),
        detail: None,
    }
}

#[test]
fn an_observation_is_named_under_its_source_and_timed_by_its_item() {
    let mut up = target("up");
    up.starts_at_ms = Some(NOW_MS - 5_000);
    up.ends_at_ms = Some(NOW_MS + 60_000);
    let observation =
        normalized_bridge_observation(&up, &[], "bridge.brickell", "fl511.x", NOW_MS, live(NOW_MS)).unwrap();
    assert_eq!(observation.id, "fl511.x:target");
    assert_eq!(observation.observed_at_ms, NOW_MS - 5_000);
    assert_eq!(observation.received_at_ms, NOW_MS);
    assert_eq!(observation.expires_at_ms, Some(NOW_MS + 60_000));
    up.observed_at_ms = Some(NOW_MS - 1_000);
    let observation =
        normalized_bridge_observation(&up, &[], "bridge.brickell", "fl511.x", NOW_MS, live(NOW_MS)).unwrap();
    assert_eq!(observation.observed_at_ms, NOW_MS - 1_000);
    let plain = target("down");
    let observation =
        normalized_bridge_observation(&plain, &[], "bridge.brickell", "fl511.x", NOW_MS, live(NOW_MS)).unwrap();
    assert_eq!(observation.observed_at_ms, NOW_MS);
}

#[test]
fn availability_grades_round_trip_and_disabled_reads_offline() {
    for (dto, status) in [
        (AvailabilityDto::Fresh, AvailabilityStatus::Live),
        (AvailabilityDto::Delayed, AvailabilityStatus::Degraded),
        (AvailabilityDto::Stale, AvailabilityStatus::Stale),
        (AvailabilityDto::Offline, AvailabilityStatus::Offline),
    ] {
        assert_eq!(model_status(dto), status);
        assert_eq!(availability_dto(status), dto);
    }
    assert_eq!(availability_dto(AvailabilityStatus::Disabled), AvailabilityDto::Offline);
}

fn contribution(label: &str, disposition: ContributionDisposition) -> Contribution {
    Contribution {
        label: label.into(),
        observation_id: None,
        kind: EvidenceKind::Direct,
        disposition,
        applied_bps: 0,
    }
}

fn prediction(contributions: Vec<Contribution>, next: Option<i64>) -> Prediction {
    Prediction {
        state: BridgeStateDto::Likely,
        eta: Some(EtaRange { earliest: 6, latest: 13 }),
        confidence_bps: 7_200,
        contributions,
        availability: ModelAvailability {
            status: AvailabilityStatus::Degraded,
            checked_at_ms: NOW_MS,
            last_success_at_ms: Some(NOW_MS - 95_000),
            detail: None,
        },
        evaluated_at_ms: NOW_MS,
        next_ordinary_opening_at_ms: next,
        ordinary_opening_allowed: false,
    }
}

#[test]
fn a_decision_names_its_state_eta_confidence_and_basis() {
    let p = prediction(
        vec![
            contribution("AIS approach", ContributionDisposition::Applied),
            contribution("Ignored", ContributionDisposition::NotApplied),
            contribution("FL511", ContributionDisposition::Authoritative),
            contribution("Upstream", ContributionDisposition::Applied),
            contribution("Fourth", ContributionDisposition::Applied),
        ],
        None,
    );
    let d = decision_snapshot(&p, "UTC").unwrap();
    assert_eq!(d.channel_id, "bridge.brickell");
    assert_eq!(d.subject, "Brickell Avenue");
    assert_eq!(d.state, BridgeStateDto::Likely);
    assert_eq!(d.state_label, "Opening likely");
    assert_eq!(d.eta_min, Some(6));
    assert_eq!(d.eta_max, Some(13));
    assert_eq!(d.confidence_bps, Some(7_200));
    assert_eq!(d.confidence_label.as_deref(), Some("High estimate"));
    assert_eq!(d.confidence_basis.as_deref(), Some("AIS approach · FL511 · Upstream"));
    assert_eq!(d.next_legal_slot, None);
    assert!(!d.opening_allowed_now);
    assert_eq!(d.availability, AvailabilityDto::Delayed);
    assert_eq!(d.source_age_seconds, 95);
}

#[test]
fn a_decision_without_applied_evidence_rests_on_the_schedule() {
    let p = prediction(vec![contribution("Ignored", ContributionDisposition::NotApplied)], None);
    let d = decision_snapshot(&p, "UTC").unwrap();
    assert_eq!(
        d.confidence_basis.as_deref(),
        Some("Legal schedule only; no predictive source observations.")
    );
}

#[test]
fn the_next_legal_slot_is_told_on_the_local_clock() {
    let p = prediction(Vec::new(), Some(NOW_MS + 30 * 60_000));
    let d = decision_snapshot(&p, "UTC").unwrap();
    assert_eq!(d.next_legal_slot.as_deref(), Some("9:30 PM"));
    let unreadable = prediction(Vec::new(), Some(i64::MAX));
    assert!(matches!(decision_snapshot(&unreadable, "UTC"), Err(RuntimeError::Time(_))));
}

fn transition(key: &str, relation: &str, from: &str, to: &str, at: i64) -> BridgeStateTransition {
    BridgeStateTransition {
        bridge_key: key.into(),
        bridge_name: format!("{key} bridge"),
        relation: relation.into(),
        from_state: from.into(),
        to_state: to.into(),
        occurred_at_ms: at,
    }
}

fn source(channel_id: &str, items: Vec<CollectorItem>) -> SourceState {
    let mut source = SourceState::empty(channel_id);
    source.items = items;
    source.reported_health = HealthState::Healthy;
    source.last_attempt_ms = Some(NOW_MS);
    source.last_success_ms = Some(NOW_MS);
    source
}

fn bridge_channel() -> ChannelPreference {
    AppPreferences::defaults(&FeedCatalog {
        schema_version: 1,
        verified_on: "2025-01-01".into(),
        sections: Vec::new(),
    })
    .profile
    .channels
    .into_iter()
    .find(|channel| channel.id == "bridge.brickell")
    .unwrap()
}

#[test]
fn bridge_evidence_reads_the_bridge_channels_fl511_and_ais_sources_in_order() {
    let channel = bridge_channel();
    let upstream = item(
        "upstream:sw_1_st",
        ItemKind::Bridge,
        vec![("relation", text("upstream")), ("state", text("up")), ("selector_key", text("sw_1_st"))],
    );
    let mut fl511 = source(&channel.id, vec![target("down"), upstream]);
    fl511.bridge_transitions = vec![
        transition("w_flagler", "upstream", "down", "up", NOW_MS - 8 * 60_000),
        transition("sw_1_st", "upstream", "down", "up", NOW_MS - 4 * 60_000),
    ];
    let vessel = ais(vec![
        ("movement", text("approaching")),
        ("route_intersects", JsonValue::Bool(true)),
    ]);
    let weather = item("wx", ItemKind::WeatherCurrent, Vec::new());
    let sources = vec![
        SourceEntry { source_id: "fl511.bridge.brickell".into(), state: fl511 },
        SourceEntry { source_id: "aisstream.brickell".into(), state: source(&channel.id, vec![weather, vessel]) },
        SourceEntry { source_id: "nws.area".into(), state: source(&channel.id, vec![target("up")]) },
    ];
    let active = vec![
        ("fl511.bridge.brickell".to_string(), channel.id.clone()),
        ("aisstream.brickell".to_string(), channel.id.clone()),
        ("nws.area".to_string(), channel.id.clone()),
        ("fl511.other".to_string(), channel.id.clone()),
    ];
    let channels = vec![channel.clone()];
    let views = bridge_evidence(&channels, &sources, &active, &[], NOW_MS);
    assert_eq!(views.len(), 3);
    assert_eq!(views[0].item.id, "target");
    assert_eq!(views[0].source_id, "fl511.bridge.brickell");
    let target_evidence = views[0].evidence.as_ref().unwrap();
    assert_eq!(target_evidence.confidence_bps, 9_900);
    assert_eq!(target_evidence.observation.id, "fl511.bridge.brickell:target");

    let outbound = views[1].evidence.as_ref().unwrap();
    assert_eq!(outbound.confidence_bps, 10_000);
    assert_eq!(
        outbound.observation.id,
        format!("fl511.bridge.brickell:outbound:{}", NOW_MS - 4 * 60_000)
    );
    assert_eq!(views[1].observed_ms, NOW_MS - 4 * 60_000);
    assert_eq!(
        outbound.observation.data,
        BridgeObservation::OutboundProgress {
            bridge: "sw_1_st bridge".into(),
            stage: OutboundProgressStage::High,
            eta: Some(EtaRange { earliest: 6, latest: 13 }),
        }
    );

    assert_eq!(views[2].source_id, "aisstream.brickell");
    assert_eq!(views[2].evidence.as_ref().unwrap().confidence_bps, 8_500);
    assert_eq!(evidence_list(&views).len(), 3);

    assert!(bridge_evidence(&Vec::new(), &sources, &active, &[], NOW_MS).is_empty());
}

#[test]
fn an_upstream_span_other_than_the_last_passed_gives_no_evidence() {
    let channel = bridge_channel();
    let upstream = item(
        "upstream:w_flagler",
        ItemKind::Bridge,
        vec![("relation", text("upstream")), ("state", text("down")), ("selector_key", text("w_flagler"))],
    );
    let mut fl511 = source(&channel.id, vec![upstream]);
    fl511.bridge_transitions = vec![
        transition("w_flagler", "upstream", "down", "up", NOW_MS - 8 * 60_000),
        transition("sw_1_st", "upstream", "down", "up", NOW_MS - 4 * 60_000),
    ];
    let sources = vec![SourceEntry { source_id: "fl511.bridge.brickell".into(), state: fl511 }];
    let active = vec![("fl511.bridge.brickell".to_string(), channel.id.clone())];
    let views = bridge_evidence(&vec![channel], &sources, &active, &[], NOW_MS);
    assert_eq!(views.len(), 1);
    assert!(views[0].evidence.is_none());
    assert_eq!(views[0].observed_ms, NOW_MS);
    assert!(evidence_list(&views).is_empty());
}

#[test]
fn evidence_strips_describe_each_view() {
    let channel = bridge_channel();
    let mut up = target("up");
    up.summary = Some("Brickell is up".into());
    let vessel = ais(vec![
        ("movement", text("approaching")),
        ("route_intersects", JsonValue::Bool(true)),
    ]);
    let plain_upstream =
        item("upstream:x", ItemKind::Bridge, vec![("relation", text("upstream")), ("state", text("down"))]);
    let sources = vec![
        SourceEntry { source_id: "fl511.bridge.brickell".into(), state: source(&channel.id, vec![up, plain_upstream]) },
        SourceEntry { source_id: "aisstream.brickell".into(), state: source(&channel.id, vec![vessel]) },
    ];
    let active = vec![
        ("fl511.bridge.brickell".to_string(), channel.id.clone()),
        ("aisstream.brickell".to_string(), channel.id.clone()),
    ];
    let channels = vec![channel];
    let views = bridge_evidence(&channels, &sources, &active, &[], NOW_MS);
    assert_eq!(views.len(), 3);
    let mut applied = contribution("FL511", ContributionDisposition::Applied);
    applied.observation_id = Some("fl511.bridge.brickell:target".into());
    applied.applied_bps = 4_321;
    let mut corroboration = contribution("Both", ContributionDisposition::Applied);
    corroboration.kind = EvidenceKind::Corroboration;
    let p = prediction(vec![applied, corroboration], None);
    let details = vec![None, None, Some("0.4 mi from target bridge".to_string())];
    let strips = evidence_snapshots(&p, &views, &details, NOW_MS + 3_000).unwrap();
    assert_eq!(strips.len(), 3);
    assert_eq!(strips[0].id, "fl511.bridge.brickell:target");
    assert_eq!(strips[0].source_label, "Florida 511");
    assert_eq!(strips[0].detail, "Brickell is up");
    assert_eq!(strips[0].contribution_bps, Some(4_321));
    assert_eq!(strips[0].interrupt, Some(true));
    assert_eq!(strips[0].corroborated, Some(true));
    assert_eq!(strips[0].age_seconds, 3);
    assert_eq!(strips[0].state, EvidenceStateDto::Live);
    assert_eq!(strips[0].observed_at, "2026-08-14T21:00:00Z");
    assert_eq!(strips[1].id, "upstream:x");
    assert_eq!(strips[1].detail, "upstream bridge status is down");
    assert_eq!(strips[1].state, EvidenceStateDto::Pending);
    assert_eq!(strips[1].interrupt, None);
    assert_eq!(strips[1].contribution_bps, None);
    assert_eq!(strips[2].source_label, "AISStream");
    assert_eq!(strips[2].detail, "0.4 mi from target bridge");
    assert_eq!(strips[2].channel_id, "bridge.brickell");
}

fn ais_bridge_item() -> CollectorItem {
    let mut item = item(
        "aisstream:367719770",
        ItemKind::Bridge,
        vec![
            ("relation", text("ais")),
            ("state", text("approaching")),
            ("movement", text("approaching")),
            ("route_intersects", JsonValue::Bool(true)),
            ("mmsi", text("367719770")),
            ("vessel_name", text("RIVER RUNNER")),
            ("distance_meters", integer(1_240)),
            ("eta_min_minutes", integer(6)),
            ("eta_max_minutes", integer(10)),
        ],
    );
    item.title = "RIVER RUNNER · 367719770".into();
    item.summary = Some("1.2 km from Brickell Avenue Bridge · approaching · ETA 6–10 min".into());
    item.observed_at_ms = Some(NOW_MS);
    item
}

#[test]
fn ais_collector_item_normalizes_to_real_predictor_evidence() {
    let item = ais_bridge_item();
    assert_eq!(
        bridge_fact(&item, &[]),
        Some(BridgeObservation::AisTrack {
            mmsi: Some("367719770".into()),
            vessel_name: Some("RIVER RUNNER".into()),
            movement: VesselMovementDto::Approaching,
            route_intersects: true,
            schedule_exempt: false,
            eta: Some(EtaRange { earliest: 6, latest: 10 }),
            opening_propensity: None,
        })
    );
}

#[test]
fn live_tug_exemption_reaches_predictor_evidence() {
    let mut item = ais_bridge_item();
    item.attributes.insert("vessel_class".into(), text("tug"));
    let Some(BridgeObservation::AisTrack { schedule_exempt, .. }) = bridge_fact(&item, &[]) else {
        panic!("expected an AIS track");
    };
    assert!(schedule_exempt);
}

#[test]
fn ledger_propensity_and_sailing_prior_reach_the_ais_observation() {
    let item = ais_bridge_item();
    let propensities = vec![("367719770".to_string(), 6_667_u16)];
    let Some(BridgeObservation::AisTrack { opening_propensity, .. }) = bridge_fact(&item, &propensities)
    else {
        panic!("expected an AIS track");
    };
    assert_eq!(opening_propensity, Some(6_667));

    let mut sailing = ais_bridge_item();
    sailing.attributes.insert("vessel_class".into(), text("sailing"));
    let Some(BridgeObservation::AisTrack { opening_propensity, .. }) = bridge_fact(&sailing, &[]) else {
        panic!("expected an AIS track");
    };
    assert_eq!(opening_propensity, Some(9_000));
}

#[test]
fn long_range_eta_is_informational_and_cannot_activate_bridge_channel() {
    let now_ms: i64 = 1_786_802_400_000;
    let p = Prediction {
        state: BridgeStateDto::Clear,
        eta: Some(EtaRange { earliest: 90, latest: 90 }),
        confidence_bps: 10_000,
        contributions: vec![Contribution {
            label: "Test tow".into(),
            observation_id: Some("long-range-transit".into()),
            kind: EvidenceKind::Direct,
            disposition: ContributionDisposition::Applied,
            applied_bps: 0,
        }],
        availability: ModelAvailability {
            status: AvailabilityStatus::Live,
            checked_at_ms: now_ms,
            last_success_at_ms: Some(now_ms),
            detail: None,
        },
        evaluated_at_ms: now_ms,
        next_ordinary_opening_at_ms: None,
        ordinary_opening_allowed: false,
    };
    let decision = decision_snapshot(&p, "America/New_York").unwrap();
    assert_eq!(decision.state, BridgeStateDto::Clear);
    assert_eq!(decision.eta_min, Some(90));
    assert_eq!(decision.state_label, "Road open");
    assert_eq!(decision.action, "Alerts begin at T-30.");
    assert_eq!(
        brickellstatus_runtime::priority::channel_urgency(
            brickellstatus_runtime::dto::ChannelKindDto::Bridge,
            None,
            &decision,
            brickellstatus_runtime::priority::QuakeBand::Other,
        ),
        brickellstatus_runtime::dto::UrgencyDto::Routine
    );
}
