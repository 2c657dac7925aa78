use brickellstatus_runtime::ais::iso_timestamp;
use brickellstatus_runtime::catalog::FeedCatalog;
use brickellstatus_runtime::dto::{AppPreferences, ChannelKindDto, ChannelPreference};
use brickellstatus_runtime::item::{CollectorItem, ItemKind, SourceLink};
use brickellstatus_runtime::json::{JsonMember, JsonNumber, JsonObject, JsonValue};
use brickellstatus_runtime::notice::{authored_channel_signal, authored_item_expiration_ms};
use brickellstatus_runtime::number::Decimal;

const NOW_MS: i64 = 1_786_741_200_000;

fn shipped() -> AppPreferences {
    AppPreferences::defaults(&FeedCatalog {
        schema_version: 1,
        verified_on: "2025-01-01".into(),
        sections: Vec::new(),
    })
}

fn channel_of(preferences: &AppPreferences, kind: ChannelKindDto) -> ChannelPreference {
    preferences.profile.channels.iter().find(|channel| channel.kind == kind).unwrap().clone()
}

fn item(id: &str, kind: ItemKind, title: &str, observed_ms: i64) -> CollectorItem {
    CollectorItem {
        id: id.into(),
        kind,
        title: title.into(),
        summary: None,
        observed_at_ms: Some(observed_ms),
        starts_at_ms: None,
        ends_at_ms: None,
        location: None,
        source: SourceLink { name: "Fixture feed".into(), url: Some("https://example.com/feed.xml".into()) },
        attributes: JsonObject { members: Vec::new() },
    }
}

fn iso(ms: i64) -> String {
    iso_timestamp(ms).unwrap()
}

#[test]
fn authored_notices_expire_after_their_channel_window_without_a_provider_end() {
    let preferences = shipped();
    let observed_ms = NOW_MS - 15 * 60_000;
    for kind in [ChannelKindDto::News, ChannelKindDto::Sports, ChannelKindDto::Hurricane] {
        let channel = channel_of(&preferences, kind);
        let authored = item("x:expiry", ItemKind::News, "Miami update", observed_ms);
        let signal = authored_channel_signal(kind, &channel, &authored, NOW_MS).unwrap();
        assert_eq!(
            signal.expires_at,
            Some(iso(observed_ms + i64::from(channel.max_age_minutes) * 60_000)),
            "{kind:?}"
        );
    }
    let quakes = channel_of(&preferences, ChannelKindDto::Earthquake);
    let quake = item("usgs:expiry", ItemKind::Earthquake, "M 7.2", observed_ms);
    assert_eq!(authored_item_expiration_ms(ChannelKindDto::Earthquake, &quakes, &quake), Some(observed_ms + 1_440 * 60_000));

    let news_channel = channel_of(&preferences, ChannelKindDto::News);
    let mut bounded = item("news:end", ItemKind::News, "Miami update", observed_ms);
    bounded.ends_at_ms = Some(NOW_MS + 10 * 60_000);
    let signal = authored_channel_signal(ChannelKindDto::News, &news_channel, &bounded, NOW_MS).unwrap();
    assert_eq!(signal.expires_at, Some(iso(NOW_MS + 10 * 60_000)), "a provider end remains authoritative");
}

#[test]
fn an_earthquake_scope_window_is_read_in_minutes_and_rounded() {
    let preferences = shipped();
    let mut quakes = channel_of(&preferences, ChannelKindDto::Earthquake);
    let quake = item("usgs:x", ItemKind::Earthquake, "M 5", NOW_MS);
    quakes.scope.insert("eventAgeMinutes".into(), JsonValue::Number(JsonNumber::Float(Decimal::new(25, -1))));
    assert_eq!(authored_item_expiration_ms(ChannelKindDto::Earthquake, &quakes, &quake), Some(NOW_MS + 150_000));
    quakes.scope.insert("eventAgeMinutes".into(), JsonValue::Number(JsonNumber::Float(Decimal::new(1, -5))));
    assert_eq!(authored_item_expiration_ms(ChannelKindDto::Earthquake, &quakes, &quake), Some(NOW_MS + 1));
    quakes.scope.insert("eventAgeMinutes".into(), JsonValue::Number(JsonNumber::Integer(-1)));
    assert_eq!(authored_item_expiration_ms(ChannelKindDto::Earthquake, &quakes, &quake), None);
    quakes.scope.insert("eventAgeMinutes".into(), JsonValue::Number(JsonNumber::Float(Decimal::new(1, 30))));
    assert_eq!(authored_item_expiration_ms(ChannelKindDto::Earthquake, &quakes, &quake), Some(i64::MAX));
}

#[test]
fn an_official_signal_carries_bounded_provider_content() {
    let preferences = shipped();
    let channel = channel_of(&preferences, ChannelKindDto::Official);
    let expires_ms = NOW_MS + 30 * 60_000;
    let mut alert = item("nws:alert-a", ItemKind::OfficialAlert, "Flash Flood Warning", NOW_MS);
    alert.summary = Some("Flash flooding is occurring near downtown Miami.".into());
    alert.ends_at_ms = Some(expires_ms);
    alert.attributes = JsonObject {
        members: vec![JsonMember { key: "severity".into(), value: JsonValue::String("Severe".into()) }],
    };
    let signal = authored_channel_signal(ChannelKindDto::Official, &channel, &alert, NOW_MS).unwrap();
    assert_eq!(signal.headline, "Flash Flood Warning");
    assert_eq!(signal.detail, "Flash flooding is occurring near downtown Miami.");
    assert_eq!(signal.action, "This alert is in force now.");
    assert_eq!(signal.severity.as_deref(), Some("Severe"));
    assert_eq!(signal.expires_at, Some(iso(expires_ms)));
    assert!(signal.series.is_empty());
    assert!(authored_channel_signal(ChannelKindDto::Bridge, &channel, &alert, NOW_MS).is_none());
}

#[test]
fn a_news_signal_names_its_publisher_and_whether_it_breaks() {
    let preferences = shipped();
    let channel = channel_of(&preferences, ChannelKindDto::News);
    let mut first = item("news:first", ItemKind::News, "Breaking Miami transportation closure", NOW_MS);
    first.summary = Some("The downtown ramp closes at 6 PM for emergency repairs.".into());
    let signal = authored_channel_signal(ChannelKindDto::News, &channel, &first, NOW_MS).unwrap();
    assert_eq!(signal.headline, "Breaking Miami transportation closure");
    assert_eq!(signal.detail, "The downtown ramp closes at 6 PM for emergency repairs.");
    assert_eq!(signal.action, "Fixture feed");
    assert_eq!(signal.severity.as_deref(), Some("Breaking"));

    let routine = item("news:routine", ItemKind::News, "Miami transportation service restored", NOW_MS);
    let signal = authored_channel_signal(ChannelKindDto::News, &channel, &routine, NOW_MS).unwrap();
    assert_eq!(signal.severity.as_deref(), Some("Routine"));
}
