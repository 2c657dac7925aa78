use brickellstatus_runtime::catalog::{CatalogEntry, CatalogGroup, CatalogSection, FeedCatalog};
use brickellstatus_runtime::dto::{
    AisProvider, AppPreferences, ChannelKindDto, DestinationIdDto, DisplayTransport,
    InterruptPreset, ProfilePreset, SurfacePresence, UnitSystem, WhatsAppRecipientConsent,
};
use brickellstatus_runtime::json::{JsonNumber, JsonObject, JsonValue};
use brickellstatus_runtime::number::Decimal;
use brickellstatus_runtime::preferences::{
    standardize_alert_policy, validate_preferences, whatsapp_consent_is_current,
    AUTOMATIC_FRAME_DWELL_SECONDS, AUTOMATIC_ITEM_LIMIT,
};

fn entry(id: &str, url: &str) -> CatalogEntry {
    CatalogEntry {
        id: id.into(),
        label: id.into(),
        url: url.into(),
        note: None,
    }
}

/// A catalog holding the entries the shipped channels are seeded with.
fn catalog() -> FeedCatalog {
    let news = CatalogSection {
        id: "news".into(),
        kind: ChannelKindDto::News,
        label: "News".into(),
        note: None,
        groups: vec![CatalogGroup {
            id: "news.wires".into(),
            label: "Wires and local desks".into(),
            note: None,
            entries: vec![
                entry("bbc.world", "https://feeds.bbci.co.uk/news/world/rss.xml"),
                entry("npr.news", "https://feeds.npr.org/1001/rss.xml"),
                entry("miamidade.gov", "https://www.miamidade.gov/global/news/rss.xml"),
                entry("wsvn.all", "https://wsvn.com/feed/"),
                entry("local10.all", "https://www.local10.com/arc/outboundfeeds/rss/"),
            ],
        }],
    };
    let sports = CatalogSection {
        id: "sports".into(),
        kind: ChannelKindDto::Sports,
        label: "Sports".into(),
        note: None,
        groups: vec![CatalogGroup {
            id: "sports.miami".into(),
            label: "Miami teams".into(),
            note: None,
            entries: vec![
                entry("cbs.nfl", "https://www.cbssports.com/rss/headlines/nfl/"),
                entry("dolphins.phinsider", "https://www.thephinsider.com/rss/index.xml"),
                entry("heat.gnews", "https://news.google.com/rss/search?q=Miami+Heat"),
                entry("pfr.all", "https://www.profootballrumors.com/feed"),
            ],
        }],
    };
    FeedCatalog {
        schema_version: 1,
        verified_on: "2025-01-01".into(),
        sections: vec![news, sports],
    }
}

fn defaults() -> AppPreferences {
    AppPreferences::defaults(&catalog())
}

fn text(value: &str) -> JsonValue {
    JsonValue::String(value.into())
}

fn integer(value: i128) -> JsonValue {
    JsonValue::Number(JsonNumber::Integer(value))
}

fn decimal(mantissa: i64, exponent: i32) -> JsonValue {
    JsonValue::Number(JsonNumber::Float(Decimal::new(mantissa, exponent)))
}

fn texts(values: &[&str]) -> JsonValue {
    JsonValue::Array(values.iter().map(|value| text(value)).collect())
}

fn scope_text<'a>(scope: &'a JsonObject, key: &str) -> Option<&'a str> {
    scope.get_str(key)
}

#[test]
fn bridge_first_defaults_match_the_console_contract() {
    let value = defaults();
    assert_eq!(value.unit_system, UnitSystem::Imperial);
    assert_eq!(value.profile.preset, ProfilePreset::BridgeFirst);
    assert_eq!(value.profile.home_channel_id, "bridge.brickell");
    assert_eq!(value.display.transport, DisplayTransport::Preview);
    assert_eq!(value.display.ble_name, "");
    assert!(!value.whatsapp.token_configured);
    assert_eq!(value.whatsapp.consent, WhatsAppRecipientConsent::NotRecorded);
    assert_eq!(value.whatsapp.consent_recipient, None);
    assert_eq!(value.whatsapp.consent_recorded_at_millis, None);
    assert!(!value.ais.enabled);
    assert_eq!(value.ais.provider, AisProvider::Aisstream);
    assert!(!value.ais.api_key_configured);
    assert_eq!(value.areas[0].id, "area.miami");
    let area_ids = value.profile.channels[1].scope.get_array("areaIds").unwrap();
    assert_eq!(area_ids[0], text("area.miami"));
    assert_eq!(value.profile.channels.len(), 8);
    validate_preferences(&defaults()).unwrap();
}

#[test]
fn earthquake_scope_accepts_the_magnitude_45_day_feed() {
    let mut preferences = defaults();
    let earthquake_index = preferences
        .profile
        .channels
        .iter()
        .position(|channel| channel.kind == ChannelKindDto::Earthquake)
        .expect("default preferences include earthquakes");
    preferences.profile.channels[earthquake_index]
        .scope
        .insert("feed".into(), text("4.5_day"));
    validate_preferences(&preferences).unwrap();

    preferences.profile.channels[earthquake_index]
        .scope
        .insert("feed".into(), text("4.5_week"));
    assert!(validate_preferences(&preferences).is_err());
}

#[test]
fn rejects_values_outside_the_typescript_scope_contract() {
    let mut preferences = defaults();
    let mut nested = JsonObject::new();
    nested.insert("not".into(), text("allowed"));
    preferences.profile.channels[0]
        .scope
        .insert("nested".into(), JsonValue::Object(nested));
    assert!(validate_preferences(&preferences).is_err());
}

#[test]
fn opted_in_whatsapp_requires_recipient_bound_timestamped_consent() {
    let mut preferences = defaults();
    preferences.whatsapp.consent = WhatsAppRecipientConsent::OptedIn;
    assert!(validate_preferences(&preferences).is_err());

    preferences.whatsapp.recipient = " +13055550123 ".into();
    preferences.whatsapp.consent_recipient = Some("+13055559999".into());
    preferences.whatsapp.consent_recorded_at_millis = Some(1_786_741_200_000);
    assert!(validate_preferences(&preferences).is_err());

    preferences.whatsapp.consent_recipient = Some("+13055550123".into());
    preferences.whatsapp.consent_recorded_at_millis = Some(0);
    assert!(validate_preferences(&preferences).is_err());

    preferences.whatsapp.consent_recorded_at_millis = Some(1_786_741_200_000);
    validate_preferences(&preferences).unwrap();
    assert!(whatsapp_consent_is_current(&preferences.whatsapp));

    preferences.whatsapp.consent = WhatsAppRecipientConsent::Unsubscribed;
    preferences.whatsapp.recipient.clear();
    validate_preferences(&preferences).unwrap();
}

#[test]
fn enabled_whatsapp_route_matches_the_delivery_adapters_static_shape() {
    let mut preferences = defaults();
    preferences.whatsapp.enabled = true;
    preferences.whatsapp.phone_number_id = "1234567890".into();
    preferences.whatsapp.recipient = "+1 (305) 555-0123".into();
    validate_preferences(&preferences).unwrap();

    for invalid in ["abc", "123/456", ""] {
        preferences.whatsapp.phone_number_id = invalid.into();
        assert!(validate_preferences(&preferences).is_err());
    }
    preferences.whatsapp.phone_number_id = "1234567890".into();

    for invalid in ["3055550123", "+123", "+1305x5550123"] {
        preferences.whatsapp.recipient = invalid.into();
        assert!(validate_preferences(&preferences).is_err());
    }
    preferences.whatsapp.recipient = "+13055550123".into();

    preferences.whatsapp.graph_version = "v23/0".into();
    assert!(validate_preferences(&preferences).is_err());
    preferences.whatsapp.graph_version = "v23.0".into();
    for invalid in [
        "bridge/status",
        "Bridge_Status",
        "bridge status",
        "bad\nname",
    ] {
        preferences.whatsapp.template_name = invalid.into();
        assert!(validate_preferences(&preferences).is_err());
    }
    preferences.whatsapp.template_name = "bridge_status_update".into();
    for invalid in ["en/US", "EN_us", "not a locale", "e_US", "en_US_extra"] {
        preferences.whatsapp.language_code = invalid.into();
        assert!(validate_preferences(&preferences).is_err());
    }
    preferences.whatsapp.language_code = "fil_PH".into();
    validate_preferences(&preferences).unwrap();
}

#[test]
fn markets_default_to_a_disabled_real_collector() {
    let preferences = defaults();
    let market = &preferences.profile.channels[6];
    assert!(!market.enabled);
    assert_eq!(market.scope.get("symbols"), Some(&texts(&["AMD"])));
    assert_eq!(market.scope.get("pollSeconds"), Some(&integer(300)));
    validate_preferences(&preferences).unwrap();
}

#[test]
fn every_seeded_default_is_a_real_catalog_entry() {
    let preferences = defaults();
    let catalog = catalog();
    let mut seeded = 0;
    for channel in &preferences.profile.channels {
        if !matches!(channel.kind, ChannelKindDto::News | ChannelKindDto::Sports) {
            continue;
        }
        let feeds = channel.scope.get_array("feeds").unwrap();
        assert!(!feeds.is_empty(), "{} seeded no feeds", channel.id);
        for feed in feeds {
            let url = match feed {
                JsonValue::String(url) => url.as_str(),
                _ => panic!("a seeded feed is not a string"),
            };
            assert!(
                catalog.label_for_url(url).is_some(),
                "{} seeds {url}, which is not in the catalog",
                channel.id
            );
            seeded += 1;
        }
    }
    assert_eq!(seeded, 9, "news seeds five feeds and sports seeds four");
}

#[test]
fn the_sports_channel_ships_off_with_the_shared_automatic_policy() {
    let preferences = defaults();
    let sports = preferences
        .profile
        .channels
        .iter()
        .find(|channel| channel.kind == ChannelKindDto::Sports)
        .expect("a sports channel ships");
    assert_eq!(sports.id, "sports.miami");
    assert!(!sports.enabled);
    assert_eq!(sports.interrupt_preset, InterruptPreset::Recommended);
    validate_preferences(&preferences).unwrap();
}

#[test]
fn shipped_defaults_already_match_the_automatic_alert_policy() {
    let mut preferences = defaults();
    assert!(!standardize_alert_policy(&mut preferences));
    for channel in &preferences.profile.channels {
        assert_eq!(channel.max_items, AUTOMATIC_ITEM_LIMIT);
        assert_eq!(channel.rotation_seconds, AUTOMATIC_FRAME_DWELL_SECONDS);
        assert_eq!(channel.interrupt_preset, InterruptPreset::Recommended);
        assert_eq!(
            channel.destinations,
            vec![
                DestinationIdDto::Epaper,
                DestinationIdDto::Whatsapp,
                DestinationIdDto::Desktop,
            ]
        );
        assert_eq!(
            channel.presence,
            if channel.id == preferences.profile.home_channel_id {
                SurfacePresence::Home
            } else {
                SurfacePresence::ActiveOnly
            }
        );
    }
}

#[test]
fn legacy_alert_controls_are_replaced_without_overriding_channel_choices() {
    let mut preferences = defaults();
    let news = preferences
        .profile
        .channels
        .iter_mut()
        .find(|channel| channel.kind == ChannelKindDto::News)
        .unwrap();
    news.enabled = false;
    news.presence = SurfacePresence::Rotation;
    news.interrupt_preset = InterruptPreset::Off;
    news.destinations = vec![DestinationIdDto::Desktop];
    news.max_age_minutes = 1;
    news.max_items = 1;
    news.rotation_seconds = 300;
    preferences.display.dwell_seconds = 90;
    preferences.profile.quiet_hours.bypass_emergency = false;

    assert!(standardize_alert_policy(&mut preferences));
    let news = preferences
        .profile
        .channels
        .iter()
        .find(|channel| channel.kind == ChannelKindDto::News)
        .unwrap();
    assert!(!news.enabled, "the channel on/off choice is preserved");
    assert_eq!(news.presence, SurfacePresence::ActiveOnly);
    assert_eq!(news.interrupt_preset, InterruptPreset::Recommended);
    assert_eq!(news.max_age_minutes, 180);
    assert_eq!(news.max_items, AUTOMATIC_ITEM_LIMIT);
    assert_eq!(news.rotation_seconds, AUTOMATIC_FRAME_DWELL_SECONDS);
    assert_eq!(
        preferences.display.dwell_seconds,
        AUTOMATIC_FRAME_DWELL_SECONDS
    );
    assert!(preferences.profile.quiet_hours.bypass_emergency);
}

#[test]
fn untouched_legacy_earthquakes_upgrade_once_then_respect_off() {
    let mut preferences = defaults();
    let earthquake = preferences
        .profile
        .channels
        .iter_mut()
        .find(|channel| channel.kind == ChannelKindDto::Earthquake)
        .unwrap();
    earthquake.enabled = false;
    earthquake.scope.insert("feed".into(), text("significant_hour"));
    earthquake.scope.insert("minimumMagnitude".into(), decimal(55, -1));
    earthquake.scope.insert("eventAgeMinutes".into(), integer(60));

    assert!(standardize_alert_policy(&mut preferences));
    let earthquake = preferences
        .profile
        .channels
        .iter_mut()
        .find(|channel| channel.kind == ChannelKindDto::Earthquake)
        .unwrap();
    assert!(earthquake.enabled);
    assert_eq!(scope_text(&earthquake.scope, "feed"), Some("4.5_day"));
    assert_eq!(earthquake.scope.get("minimumMagnitude"), Some(&decimal(7, 0)));

    earthquake.enabled = false;
    assert!(!standardize_alert_policy(&mut preferences));
    assert!(
        !preferences
            .profile
            .channels
            .iter()
            .find(|channel| channel.kind == ChannelKindDto::Earthquake)
            .unwrap()
            .enabled
    );
}

#[test]
fn syndication_feeds_are_bounded_by_shape_and_count() {
    let mut preferences = defaults();

    preferences.profile.channels[4]
        .scope
        .insert("feeds".into(), text("https://a.example/feed"));
    assert!(validate_preferences(&preferences).is_err(), "feeds is a list");

    preferences.profile.channels[4]
        .scope
        .insert("feeds".into(), JsonValue::Array(vec![integer(42)]));
    assert!(validate_preferences(&preferences).is_err(), "feeds holds strings");

    let too_many = (0..41)
        .map(|index| text(&format!("https://example.com/{index}")))
        .collect::<Vec<_>>();
    preferences.profile.channels[4]
        .scope
        .insert("feeds".into(), JsonValue::Array(too_many));
    assert!(validate_preferences(&preferences).is_err(), "41 exceeds 40");

    preferences.profile.channels[4].scope.insert(
        "feeds".into(),
        texts(&["https://a.example/feed", "https://b.example/feed"]),
    );
    validate_preferences(&preferences).unwrap();
}

#[test]
fn a_stored_feed_the_fetcher_would_refuse_still_lets_the_app_start() {
    let mut preferences = defaults();
    preferences.profile.channels[4].scope.insert(
        "feeds".into(),
        texts(&[
            "http://insecure.example/feed",
            "not a url at all",
            "",
            "https://good.example/feed",
        ]),
    );
    validate_preferences(&preferences).unwrap();
}

#[test]
fn yahoo_market_scope_is_bounded_and_requires_symbols() {
    let mut preferences = defaults();
    let market = &mut preferences.profile.channels[6];
    market.enabled = true;
    market.scope.insert("symbols".into(), texts(&[]));
    assert!(validate_preferences(&preferences).is_err());

    preferences.profile.channels[6]
        .scope
        .insert("symbols".into(), texts(&["AMD", "amd"]));
    assert!(validate_preferences(&preferences).is_err());

    preferences.profile.channels[6]
        .scope
        .insert("symbols".into(), texts(&["DROP TABLE;"]));
    assert!(validate_preferences(&preferences).is_err());
}
