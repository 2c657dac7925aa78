use brickellstatus_runtime::catalog::{CatalogEntry, CatalogGroup, CatalogSection, FeedCatalog};
use brickellstatus_runtime::dto::{AlertArea, AlertAreaSource, AppPreferences, ChannelKindDto};
use brickellstatus_runtime::json::{JsonNumber, JsonValue};
use brickellstatus_runtime::number::{Decimal, Real};
use brickellstatus_runtime::runtime::{RuntimeError, TimeSpan};
use brickellstatus_runtime::sources::{
    market_label, plan_collectors, window_from_text, BridgePoint, CollectorKind, PlannedCollector,
    UsgsWindow,
};

fn entry(id: &str, url: &str) -> CatalogEntry {
    CatalogEntry { id: id.into(), label: id.into(), url: url.into(), note: None }
}

fn catalog() -> FeedCatalog {
    FeedCatalog {
        schema_version: 1,
        verified_on: "2025-01-01".into(),
        sections: vec![
            CatalogSection {
                id: "news".into(),
                kind: ChannelKindDto::News,
                label: "News".into(),
                note: None,
                groups: vec![CatalogGroup {
                    id: "news.wires".into(),
                    label: "Wires".into(),
                    note: None,
                    entries: vec![
                        entry("bbc.world", "https://feeds.bbci.co.uk/news/world/rss.xml"),
                        entry("npr.news", "https://feeds.npr.org/1001/rss.xml"),
                        entry("miamidade.gov", "https://www.miamidade.gov/global/news/rss.xml"),
                        entry("wsvn.all", "https://wsvn.com/feed/"),
                        entry("local10.all", "https://www.local10.com/arc/outboundfeeds/rss/"),
                    ],
                }],
            },
            CatalogSection {
                id: "sports".into(),
                kind: ChannelKindDto::Sports,
                label: "Sports".into(),
                note: None,
                groups: vec![CatalogGroup {
                    id: "sports.miami".into(),
                    label: "Miami teams".into(),
                    note: None,
                    entries: vec![
                        entry("cbs.nfl", "https://www.cbssports.com/rss/headlines/nfl/"),
                        entry("dolphins.phinsider", "https://www.thephinsider.com/rss/index.xml"),
                        entry("heat.gnews", "https://news.google.com/rss/search?q=Miami+Heat"),
                        entry("pfr.all", "https://www.profootballrumors.com/feed"),
                    ],
                }],
            },
        ],
    }
}

fn defaults() -> AppPreferences {
    AppPreferences::defaults(&catalog())
}

fn plan(preferences: &AppPreferences) -> Vec<PlannedCollector> {
    plan_collectors(preferences, false).unwrap()
}

fn collector_ids(preferences: &AppPreferences) -> Vec<String> {
    plan(preferences).into_iter().map(|registration| registration.id).collect()
}

fn texts(values: &[&str]) -> JsonValue {
    JsonValue::Array(values.iter().map(|value| JsonValue::String((*value).into())).collect())
}

#[test]
fn magnitude_45_day_feed_maps_to_the_usgs_window() {
    assert_eq!(window_from_text("4.5_day").unwrap(), UsgsWindow::Magnitude45Day);
    assert!(window_from_text("4.5_week").is_err());
}

#[test]
fn every_polled_collector_declares_a_rate_slower_than_the_engine_tick() {
    let registrations = plan(&defaults());
    assert!(!registrations.is_empty());
    for registration in &registrations {
        if registration.id.starts_with("aisstream.") {
            continue;
        }
        assert!(
            !registration.minimum_interval.is_zero(),
            "{} has no minimum_interval and would poll on every 15s tick",
            registration.id
        );
        assert!(
            registration.minimum_interval >= TimeSpan::from_secs(15),
            "{} polls faster than bridge status",
            registration.id
        );
        if !registration.id.starts_with("fl511.") {
            assert!(
                registration.minimum_interval >= TimeSpan::from_secs(60),
                "{} polls faster than the default floor",
                registration.id
            );
        }
    }
}

#[test]
fn bridge_channel_registers_fl511_fast_and_the_pilots_board_slow() {
    let registrations = plan(&defaults());
    let interval = |prefix: &str| {
        registrations
            .iter()
            .find(|registration| registration.id.starts_with(prefix))
            .unwrap_or_else(|| panic!("no registration for {prefix}"))
            .minimum_interval
    };
    assert_eq!(interval("fl511."), TimeSpan::from_secs(15));
    assert_eq!(interval("bbpilots."), TimeSpan::from_secs(600));
}

#[test]
fn the_pilots_board_can_be_switched_off_without_disabling_fl511() {
    let mut preferences = defaults();
    let bridge = preferences
        .profile
        .channels
        .iter_mut()
        .find(|channel| channel.kind == ChannelKindDto::Bridge)
        .expect("the default profile has a bridge channel");
    bridge.scope.insert("useBbPilots".into(), JsonValue::Bool(false));
    let ids = collector_ids(&preferences);
    assert!(!ids.iter().any(|id| id.starts_with("bbpilots.")));
    assert!(ids.iter().any(|id| id.starts_with("fl511.")));
}

fn second_area() -> AlertArea {
    AlertArea {
        id: "area.boston".into(),
        label: "Boston, Massachusetts".into(),
        latitude: Real::Finite(Decimal::new(423601, -4)),
        longitude: Real::Finite(Decimal::new(-710589, -4)),
        time_zone: "America/New_York".into(),
        country_code: Some("US".into()),
        admin_area: Some("Massachusetts".into()),
        source: AlertAreaSource::Search,
        enabled: true,
        weather_enabled: true,
        official_alerts_enabled: true,
        tropical_context_enabled: true,
    }
}

fn select_second_area(preferences: &mut AppPreferences, channel_indexes: &[usize]) {
    preferences.areas.push(second_area());
    for &index in channel_indexes {
        preferences.profile.channels[index]
            .scope
            .insert("areaIds".into(), texts(&["area.miami", "area.boston"]));
    }
}

#[test]
fn defaults_build_only_the_enabled_credential_free_sources() {
    let ids = collector_ids(&defaults());
    assert_eq!(ids.len(), 12);
    assert!(ids.iter().any(|id| id == "fl511.bridge.brickell"));
    assert!(ids.iter().any(|id| id == "bbpilots.bridge.brickell"));
    assert!(ids.iter().any(|id| id.starts_with("open_meteo.weather.miami.")));
    assert!(ids.iter().any(|id| id.starts_with("nws.official.miami.")));
    assert!(ids.iter().any(|id| id == "nhc.current_storms.hurricane.atlantic"));
    assert!(ids.iter().any(|id| id == "nhc.atlantic_rss.hurricane.atlantic"));
    assert_eq!(ids.iter().filter(|id| id.starts_with("rss.")).count(), 5);
    assert!(ids.iter().any(|id| id.starts_with("usgs.")));
    assert!(!ids.iter().any(|id| id.starts_with("aisstream.")));
}

#[test]
fn a_stored_bridge_reporting_switch_no_longer_parks_the_source() {
    let mut preferences = defaults();
    preferences.ais.enabled = true;
    preferences.profile.channels[0].scope.insert("useFl511".into(), JsonValue::Bool(false));
    preferences.profile.channels[0].scope.insert("useUpstream".into(), JsonValue::Bool(false));
    let ids = plan_collectors(&preferences, true)
        .unwrap()
        .into_iter()
        .map(|registration| registration.id)
        .collect::<Vec<_>>();
    assert!(ids.iter().any(|id| id == "aisstream.bridge.brickell"));
    assert!(
        ids.iter().any(|id| id.starts_with("fl511.")),
        "bridge status reporting runs whatever an old profile says"
    );
}

#[test]
fn source_enablement_and_configured_rss_feeds_come_from_scope() {
    let mut preferences = defaults();
    preferences.profile.channels[3].enabled = false;
    preferences.profile.channels[4]
        .scope
        .insert("feeds".into(), texts(&["https://example.com/local.xml"]));
    preferences.profile.channels[5].enabled = true;

    let ids = collector_ids(&preferences);
    assert!(!ids.iter().any(|id| id.starts_with("nhc.")));
    assert!(ids.iter().any(|id| id.starts_with("rss.")));
    assert!(ids.iter().any(|id| id == "usgs.significant.earthquake.significant"));
}

#[test]
fn yahoo_market_collectors_follow_the_channel_enablement() {
    let mut preferences = defaults();
    preferences.profile.channels[6].enabled = true;
    preferences.profile.channels[6]
        .scope
        .insert("symbols".into(), texts(&["AMD", "^GSPC", "BTC-USD"]));
    let ids = collector_ids(&preferences);
    assert_eq!(
        ids.iter().filter(|id| id.starts_with("yahoo_chart.markets.watchlist.")).count(),
        3
    );
    let registrations = plan(&preferences);
    assert!(registrations
        .iter()
        .filter(|registration| registration.id.starts_with("yahoo_chart."))
        .all(|registration| registration.minimum_interval == TimeSpan::from_secs(300)));

    preferences.profile.channels[6].enabled = false;
    assert!(!collector_ids(&preferences).iter().any(|id| id.starts_with("yahoo_chart.")));
}

#[test]
fn multiple_areas_expand_point_collectors_without_duplicating_nhc() {
    let mut preferences = defaults();
    select_second_area(&mut preferences, &[1, 2, 3]);

    let ids = collector_ids(&preferences);
    assert_eq!(ids.iter().filter(|id| id.starts_with("open_meteo.")).count(), 2);
    assert_eq!(ids.iter().filter(|id| id.starts_with("nws.")).count(), 2);
    assert_eq!(ids.iter().filter(|id| id.starts_with("nhc.")).count(), 2);
}

#[test]
fn disabled_areas_and_per_area_alert_types_do_not_schedule_collectors() {
    let mut preferences = defaults();
    let mut boston = second_area();
    boston.weather_enabled = false;
    boston.official_alerts_enabled = false;
    boston.tropical_context_enabled = false;
    preferences.areas.push(boston);
    for index in [1, 2, 3] {
        preferences.profile.channels[index]
            .scope
            .insert("areaIds".into(), texts(&["area.miami", "area.boston"]));
    }

    let ids = collector_ids(&preferences);
    assert_eq!(ids.iter().filter(|id| id.starts_with("open_meteo.")).count(), 1);
    assert_eq!(ids.iter().filter(|id| id.starts_with("nws.")).count(), 1);
    assert_eq!(ids.iter().filter(|id| id.starts_with("nhc.")).count(), 2);

    preferences.areas[0].enabled = false;
    preferences.areas[1].enabled = false;
    let ids = collector_ids(&preferences);
    assert!(!ids.iter().any(|id| {
        id.starts_with("open_meteo.") || id.starts_with("nws.") || id.starts_with("nhc.")
    }));
}

#[test]
fn disabled_channels_schedule_no_collectors() {
    let mut preferences = defaults();
    preferences.profile.channels[4]
        .scope
        .insert("feeds".into(), texts(&["https://example.com/local.xml"]));
    preferences.profile.channels[5].enabled = true;
    for channel in &mut preferences.profile.channels {
        channel.enabled = false;
    }
    assert!(collector_ids(&preferences).is_empty());
}

#[test]
fn nws_is_not_scheduled_for_a_known_non_us_area() {
    let mut preferences = defaults();
    let mut toronto = second_area();
    toronto.id = "area.toronto".into();
    toronto.label = "Toronto, Ontario".into();
    toronto.country_code = Some("CA".into());
    toronto.admin_area = Some("Ontario".into());
    preferences.areas.push(toronto);
    preferences.profile.channels[2]
        .scope
        .insert("areaIds".into(), texts(&["area.miami", "area.toronto"]));

    let ids = collector_ids(&preferences);
    assert_eq!(ids.iter().filter(|id| id.starts_with("nws.")).count(), 1);
}

#[test]
fn blank_repeated_and_unparseable_feeds_are_left_out_of_the_plan() {
    let mut preferences = defaults();
    preferences.profile.channels[4].scope.insert(
        "feeds".into(),
        texts(&[
            "https://good-one.example/feed",
            "not a url at all",
            "",
            "https://good-two.example/feed",
            "https://good-two.example/feed",
        ]),
    );
    let feeds = plan(&preferences)
        .into_iter()
        .filter(|registration| registration.kind == CollectorKind::Syndication)
        .map(|registration| registration.text)
        .collect::<Vec<_>>();
    assert_eq!(feeds, vec!["https://good-one.example/feed", "https://good-two.example/feed"]);
}

#[test]
fn bridge_plan_carries_its_target_and_rejects_a_bad_one() {
    let mut preferences = defaults();
    let registrations = plan_collectors(&preferences, true).unwrap();
    let fl511 = &registrations[0];
    assert_eq!(fl511.kind, CollectorKind::Fl511Bridge);
    assert_eq!(fl511.text, "Brickell Avenue Bridge");
    assert_eq!(
        fl511.point,
        Some(BridgePoint::Coordinates(
            Real::Finite(Decimal::new(257699, -4)),
            Real::Finite(Decimal::new(-8019005, -5))
        ))
    );
    assert_eq!(fl511.radius_meters, Real::Finite(Decimal::new(250, 0)));
    let stream = registrations.iter().find(|r| r.kind == CollectorKind::AisStream).unwrap();
    assert!(stream.fail_closed_on_error);
    assert!(stream.minimum_interval.is_zero());

    preferences.profile.channels[0]
        .scope
        .insert("latitude".into(), JsonValue::Number(JsonNumber::Integer(91)));
    assert!(matches!(plan_collectors(&preferences, false), Err(RuntimeError::Configuration(_))));
    preferences.profile.channels[0]
        .scope
        .insert("latitude".into(), JsonValue::String("25.7".into()));
    preferences.profile.channels[0]
        .scope
        .insert("point".into(), JsonValue::String("25.7617,-80.1918".into()));
    let registrations = plan(&preferences);
    assert_eq!(
        registrations[0].point,
        Some(BridgePoint::Coordinates(
            Real::Finite(Decimal::new(257617, -4)),
            Real::Finite(Decimal::new(-801918, -4))
        ))
    );
    for bad in ["25.7617", "north,-80.1918", "25.7617,-80.1918,3", "91,-80.1918", "25.7617,-181", "inf,-80", ","] {
        let mut with_bad = preferences.clone();
        with_bad.profile.channels[0].scope.insert("point".into(), JsonValue::String(bad.into()));
        assert!(
            matches!(plan_collectors(&with_bad, false), Err(RuntimeError::Configuration(_))),
            "{bad}"
        );
    }
    preferences.profile.channels[0]
        .scope
        .insert("point".into(), JsonValue::String(" +2.5e1 , -8.0E+1 ".into()));
    assert_eq!(
        plan(&preferences)[0].point,
        Some(BridgePoint::Coordinates(
            Real::Finite(Decimal::new(25, 0)),
            Real::Finite(Decimal::new(-80, 0))
        ))
    );
    preferences.profile.channels[0]
        .scope
        .insert("radiusMeters".into(), JsonValue::Number(JsonNumber::Integer(5)));
    assert!(plan_collectors(&preferences, false).is_err());
}

#[test]
fn market_polling_rounds_to_whole_seconds_and_names_indices() {
    let mut preferences = defaults();
    preferences.profile.channels[6].enabled = true;
    preferences.profile.channels[6]
        .scope
        .insert("pollSeconds".into(), JsonValue::Number(JsonNumber::Float(Decimal::new(905, -1))));
    preferences.profile.channels[6]
        .scope
        .insert("symbols".into(), texts(&[" ^gspc ", "AMD"]));
    let markets = plan(&preferences)
        .into_iter()
        .filter(|registration| registration.kind == CollectorKind::YahooChart)
        .collect::<Vec<_>>();
    assert_eq!(markets.len(), 2);
    assert_eq!(markets[0].minimum_interval, TimeSpan::from_secs(91));
    assert_eq!(markets[0].label, "S&P 500");
    assert_eq!(markets[1].label, "AMD");
    assert_eq!(market_label("cl=f"), "WTI");
    preferences.profile.channels[6]
        .scope
        .insert("pollSeconds".into(), JsonValue::Number(JsonNumber::Integer(30)));
    assert!(plan_collectors(&preferences, false).is_err());
}

#[test]
fn http_and_loopback_feeds_stay_candidates_for_the_fetcher_to_refuse() {
    let mut preferences = defaults();
    preferences.profile.channels[4].scope.insert(
        "feeds".into(),
        texts(&[
            "https://good-one.example/feed",
            "http://insecure.example/feed",
            "not a url at all",
            "https://127.0.0.1/feed",
            "",
            "https://good-two.example/feed",
            "https://good-two.example/feed",
        ]),
    );
    let feeds = plan(&preferences)
        .into_iter()
        .filter(|registration| registration.kind == CollectorKind::Syndication)
        .map(|registration| registration.text)
        .collect::<Vec<_>>();
    assert_eq!(
        feeds,
        vec![
            "https://good-one.example/feed",
            "http://insecure.example/feed",
            "https://127.0.0.1/feed",
            "https://good-two.example/feed",
        ]
    );
}
