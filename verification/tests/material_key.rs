use brickellstatus_runtime::catalog::FeedCatalog;
use brickellstatus_runtime::dto::{AppPreferences, BridgeStateDto, ChannelKindDto, ChannelPreference};
use brickellstatus_runtime::item::{CollectorItem, ItemKind, Location, SourceLink};
use brickellstatus_runtime::json::{JsonMember, JsonNumber, JsonObject, JsonValue};
use brickellstatus_runtime::number::{Decimal, Real};
use brickellstatus_runtime::priority::channel_material_item_matches;
use brickellstatus_runtime::material::channel_material_key;
use sha2::{Digest, Sha256};

fn hex(bytes: &[u8]) -> String {
    bytes.iter().map(|b| format!("{b:02x}")).collect()
}

#[test]
fn the_key_hashes_the_channel_state_and_sorted_distinct_material() {
    let key = channel_material_key(
        "official.miami",
        ChannelKindDto::Official,
        BridgeStateDto::Clear,
        true,
        vec![b"b".to_vec(), b"a".to_vec(), b"b".to_vec()],
    );
    let mut hasher = Sha256::new();
    hasher.update(b"channel-material\0official.miami\0active\0a\0b");
    assert_eq!(key, format!("material:{}", hex(&hasher.finalize())));
}

#[test]
fn material_order_and_repeats_do_not_change_the_key() {
    let one = channel_material_key("news.local", ChannelKindDto::News, BridgeStateDto::Clear, true,
        vec![b"x".to_vec(), b"yy".to_vec()]);
    let two = channel_material_key("news.local", ChannelKindDto::News, BridgeStateDto::Clear, true,
        vec![b"yy".to_vec(), b"x".to_vec(), b"x".to_vec()]);
    assert_eq!(one, two);
    let other = channel_material_key("news.local", ChannelKindDto::News, BridgeStateDto::Clear, true,
        vec![b"x".to_vec(), b"zz".to_vec()]);
    assert_ne!(one, other);
}

#[test]
fn an_inactive_bridge_keys_its_state_and_no_material() {
    let key = channel_material_key("bridge.brickell", ChannelKindDto::Bridge, BridgeStateDto::Likely, false,
        vec![b"ignored".to_vec()]);
    let mut hasher = Sha256::new();
    hasher.update(b"channel-material\0bridge.brickell\0inactive\0Likely");
    assert_eq!(key, format!("material:{}", hex(&hasher.finalize())));
}

const NOW_MS: i64 = 1_786_741_200_000;

fn shipped() -> AppPreferences {
    AppPreferences::defaults(&FeedCatalog { schema_version: 1, verified_on: "2025-01-01".into(), sections: Vec::new() })
}

fn members(pairs: Vec<(&str, JsonValue)>) -> JsonObject {
    JsonObject { members: pairs.into_iter().map(|(key, value)| JsonMember { key: key.into(), value }).collect() }
}

fn text(value: &str) -> JsonValue {
    JsonValue::String(value.into())
}

fn point(latitude: Decimal, longitude: Decimal) -> Option<Location> {
    Some(Location { latitude: Some(Real::Finite(latitude)), longitude: Some(Real::Finite(longitude)), name: None })
}

fn item(id: &str, kind: ItemKind, title: &str, source: &str, url: &str) -> CollectorItem {
    CollectorItem {
        id: id.into(),
        kind,
        title: title.into(),
        summary: None,
        observed_at_ms: Some(NOW_MS),
        starts_at_ms: None,
        ends_at_ms: None,
        location: None,
        source: SourceLink { name: source.into(), url: Some(url.into()) },
        attributes: JsonObject { members: Vec::new() },
    }
}

fn official_alert_item(id: &str, ends_ms: Option<i64>) -> CollectorItem {
    let mut alert = item(id, ItemKind::OfficialAlert, "Flash Flood Warning", "National Weather Service",
        "https://api.weather.gov/alerts/fixture");
    alert.summary = Some("Fixture official warning".into());
    alert.ends_at_ms = ends_ms;
    alert.location = point(Decimal::new(257617, -4), Decimal::new(-801918, -4));
    alert.attributes = members(vec![
        ("instruction", text("Move to higher ground now.")),
        ("message_type", text("Alert")),
        ("status", text("Actual")),
        ("severity", text("Severe")),
    ]);
    alert
}

fn news_item(id: &str, title: &str) -> CollectorItem {
    item(id, ItemKind::News, title, "Fixture feed", "https://example.com/feed.xml")
}

fn tropical_item(id: &str) -> CollectorItem {
    let mut storm = item(&format!("nhc:{id}"), ItemKind::TropicalCyclone, "TS Fixture", "National Hurricane Center",
        "https://www.nhc.noaa.gov/cyclones/");
    storm.summary = Some("TS Fixture · 50 kt".into());
    storm.location = point(Decimal::new(24, 0), Decimal::new(-76, 0));
    storm.attributes = members(vec![(
        "area_points",
        JsonValue::Array(vec![JsonValue::Object(members(vec![
            ("lat", JsonValue::Number(JsonNumber::Float(Decimal::new(257699, -4)))),
            ("lon", JsonValue::Number(JsonNumber::Float(Decimal::new(-8019005, -5)))),
        ]))]),
    )]);
    storm
}

fn earthquake_item(id: &str) -> CollectorItem {
    let mut quake = item(id, ItemKind::Earthquake, "M 7.2 fixture earthquake", "USGS",
        "https://earthquake.usgs.gov/earthquakes/eventpage/fixture");
    quake.summary = Some("Fixture earthquake".into());
    quake.location = point(Decimal::new(184, -1), Decimal::new(-661, -1));
    quake.attributes = members(vec![
        ("magnitude", JsonValue::Number(JsonNumber::Float(Decimal::new(72, -1)))),
        ("status", text("reviewed")),
    ]);
    quake
}

fn key(kind: ChannelKindDto, channel: &ChannelPreference, items: &[&CollectorItem]) -> String {
    let material = items
        .iter()
        .filter(|item| channel_material_item_matches(kind, channel, item, NOW_MS, true))
        .map(|item| format!("{}\0{}", item.id, item.title).into_bytes())
        .collect();
    channel_material_key(&channel.id, kind, BridgeStateDto::Clear, true, material)
}

#[test]
fn material_key_changes_for_same_count_alert_replacements() {
    let preferences = shipped();
    let official_channel = &preferences.profile.channels[2];
    let official_a = official_alert_item("nws:alert-a", Some(NOW_MS + 60_000));
    let official_b = official_alert_item("nws:alert-b", Some(NOW_MS + 60_000));
    assert_ne!(
        key(ChannelKindDto::Official, official_channel, &[&official_a]),
        key(ChannelKindDto::Official, official_channel, &[&official_b])
    );

    let news_channel = &preferences.profile.channels[4];
    let news_a = news_item("news:a", "Miami transportation update");
    let news_b = news_item("news:b", "Miami transportation update");
    assert_ne!(key(ChannelKindDto::News, news_channel, &[&news_a]), key(ChannelKindDto::News, news_channel, &[&news_b]));

    let tropical_channel = &preferences.profile.channels[3];
    let storm_a = tropical_item("al012026");
    let storm_b = tropical_item("al022026");
    assert_ne!(
        key(ChannelKindDto::Hurricane, tropical_channel, &[&storm_a]),
        key(ChannelKindDto::Hurricane, tropical_channel, &[&storm_b])
    );

    let mut earthquake_channel = preferences.profile.channels[5].clone();
    earthquake_channel.enabled = true;
    let earthquake_a = earthquake_item("usgs:a");
    let earthquake_b = earthquake_item("usgs:b");
    assert_ne!(
        key(ChannelKindDto::Earthquake, &earthquake_channel, &[&earthquake_a]),
        key(ChannelKindDto::Earthquake, &earthquake_channel, &[&earthquake_b])
    );
}

#[test]
fn material_key_is_order_independent_for_the_same_item_set() {
    let preferences = shipped();
    let channel = &preferences.profile.channels[4];
    let first = news_item("news:a", "Miami transportation update");
    let second = news_item("news:b", "Miami transportation update");
    let forward = key(ChannelKindDto::News, channel, &[&first, &second]);
    let reverse = key(ChannelKindDto::News, channel, &[&second, &first]);
    assert_eq!(forward, reverse);
    assert_ne!(forward, key(ChannelKindDto::News, channel, &[]));
}
