use brickellstatus_runtime::availability::{
    channel_availability, source_availability, source_is_quiescent, ChannelSourceView,
    HealthState, SourceState,
};
use brickellstatus_runtime::catalog::FeedCatalog;
use brickellstatus_runtime::dto::{AppPreferences, AvailabilityDto, ChannelKindDto, ChannelPreference};
use brickellstatus_runtime::item::{CollectorItem, ItemKind, SourceLink};
use brickellstatus_runtime::json::{JsonMember, JsonObject, JsonValue};

fn shipped() -> AppPreferences {
    AppPreferences::defaults(&FeedCatalog {
        schema_version: 1,
        verified_on: "2025-01-01".into(),
        sections: Vec::new(),
    })
}

fn market_source(session: &str, last_success_ms: i64) -> SourceState {
    let mut source = SourceState::empty("markets.watchlist");
    source.items = vec![CollectorItem {
        id: "yahoo-chart:AMD".into(),
        kind: ItemKind::MarketQuote,
        title: "AMD".into(),
        summary: None,
        observed_at_ms: None,
        starts_at_ms: None,
        ends_at_ms: None,
        location: None,
        source: SourceLink { name: "Yahoo Finance".into(), url: None },
        attributes: JsonObject {
            members: vec![JsonMember { key: "session_label".into(), value: JsonValue::String(session.into()) }],
        },
    }];
    source.reported_health = HealthState::Healthy;
    source.last_success_ms = Some(last_success_ms);
    source.failure_count = 0;
    source.poll_interval_ms = Some(300_000);
    source
}

fn markets_channel() -> ChannelPreference {
    let mut channel = shipped().profile.channels[6].clone();
    channel.max_age_minutes = 20;
    channel
}

#[test]
fn a_closed_market_is_current_rather_than_stale() {
    let now_ms = 1_786_900_000_000;
    let two_days = 48 * 60 * 60 * 1_000;
    let (availability, age) =
        source_availability(&market_source("CLOSED", now_ms - two_days), &markets_channel(), now_ms);
    assert_eq!(
        availability,
        AvailabilityDto::Fresh,
        "a closed market has no fresher answer to offer"
    );
    assert!(
        age > 100_000,
        "the age is still reported honestly, it just does not mean stale"
    );
}

#[test]
fn an_open_market_that_stops_updating_is_still_stale() {
    let now_ms = 1_786_900_000_000;
    let an_hour = 60 * 60 * 1_000;
    let (availability, _) =
        source_availability(&market_source("OPEN", now_ms - an_hour), &markets_channel(), now_ms);
    assert_eq!(availability, AvailabilityDto::Stale);
}

#[test]
fn a_closed_market_with_a_failing_collector_is_still_reported() {
    let now_ms = 1_786_900_000_000;
    let mut source = market_source("CLOSED", now_ms - 48 * 60 * 60 * 1_000);
    source.last_error = Some("connection refused".into());
    let (availability, _) = source_availability(&source, &markets_channel(), now_ms);
    assert_eq!(
        availability,
        AvailabilityDto::Delayed,
        "an error still surfaces even while the market is shut"
    );
}

#[test]
fn a_healthy_source_stays_fresh_until_its_stale_deadline() {
    let now_ms = 1_786_741_200_000;
    let preferences = shipped();
    let hurricane = preferences
        .profile
        .channels
        .iter()
        .find(|channel| channel.kind == ChannelKindDto::Hurricane)
        .unwrap();
    let mut source = SourceState::empty(&hurricane.id);
    source.reported_health = HealthState::Healthy;
    source.last_success_ms = Some(now_ms - 5 * 60 * 60 * 1_000);

    assert_eq!(source_availability(&source, hurricane, now_ms).0, AvailabilityDto::Fresh);
    source.last_success_ms = Some(now_ms - 361 * 60 * 1_000);
    assert_eq!(source_availability(&source, hurricane, now_ms).0, AvailabilityDto::Stale);
}

#[test]
fn a_slow_source_is_not_stale_merely_for_keeping_its_own_schedule() {
    let now_ms = 1_786_741_200_000;
    let mut channel = shipped()
        .profile
        .channels
        .into_iter()
        .find(|channel| channel.kind == ChannelKindDto::Bridge)
        .expect("the default profile has a bridge channel");
    channel.max_age_minutes = 2;

    let mut slow = SourceState::empty(&channel.id);
    slow.reported_health = HealthState::Healthy;
    slow.last_success_ms = Some(now_ms - 5 * 60 * 1_000);
    slow.poll_interval_ms = Some(10 * 60 * 1_000);
    assert_eq!(
        source_availability(&slow, &channel, now_ms).0,
        AvailabilityDto::Fresh,
        "a five-minute-old reading from a ten-minute feed is on schedule"
    );

    let mut fast = SourceState::empty(&channel.id);
    fast.reported_health = HealthState::Healthy;
    fast.last_success_ms = Some(now_ms - 5 * 60 * 1_000);
    fast.poll_interval_ms = Some(15 * 1_000);
    assert_eq!(
        source_availability(&fast, &channel, now_ms).0,
        AvailabilityDto::Stale,
        "a five-minute-old reading from a fifteen-second feed is genuinely late"
    );

    let mut overdue = slow.clone();
    overdue.last_success_ms = Some(now_ms - 30 * 60 * 1_000);
    assert_eq!(source_availability(&overdue, &channel, now_ms).0, AvailabilityDto::Stale);
}

#[test]
fn fail_closed_sources_go_offline_on_any_fault() {
    let now_ms = 1_786_741_200_000;
    let channel = markets_channel();
    let mut source = market_source("OPEN", now_ms - 1_000);
    assert_eq!(source_availability(&source, &channel, now_ms), (AvailabilityDto::Fresh, 1));
    source.fail_closed_on_error = true;
    source.reported_health = HealthState::Degraded;
    assert_eq!(source_availability(&source, &channel, now_ms), (AvailabilityDto::Offline, 1));
    source.last_success_ms = None;
    assert_eq!(source_availability(&source, &channel, now_ms), (AvailabilityDto::Offline, 0));
    assert!(!source_is_quiescent(&SourceState::empty("x")));
}

#[test]
fn channel_coverage_is_fresh_only_when_every_source_is() {
    let mut channel = markets_channel();
    channel.enabled = true;
    let view = |availability, age_seconds| ChannelSourceView { availability, age_seconds };
    let all_fresh = channel_availability(&channel, &[view(AvailabilityDto::Fresh, 3), view(AvailabilityDto::Fresh, 9)]);
    assert_eq!(all_fresh.availability, AvailabilityDto::Fresh);
    assert_eq!(all_fresh.age_seconds, 9);
    let mixed = channel_availability(&channel, &[view(AvailabilityDto::Fresh, 3), view(AvailabilityDto::Stale, 900)]);
    assert_eq!(mixed.availability, AvailabilityDto::Delayed);
    assert_eq!((mixed.total_sources, mixed.usable_sources, mixed.fresh_sources), (2, 1, 1));
    let stale = channel_availability(&channel, &[view(AvailabilityDto::Offline, 0), view(AvailabilityDto::Stale, 900)]);
    assert_eq!(stale.availability, AvailabilityDto::Stale);
    let none = channel_availability(&channel, &[]);
    assert_eq!(none.availability, AvailabilityDto::Offline);
    channel.enabled = false;
    let off = channel_availability(&channel, &[view(AvailabilityDto::Fresh, 3)]);
    assert_eq!((off.availability, off.total_sources, off.usable_sources), (AvailabilityDto::Offline, 1, 0));
}
