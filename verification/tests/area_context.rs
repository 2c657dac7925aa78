use brickellstatus_runtime::area_context::AreaContext;
use brickellstatus_runtime::digest::short_hash;
use brickellstatus_runtime::dto::{AlertArea, AlertAreaSource};
use brickellstatus_runtime::item::{CollectorItem, ItemKind, Location, SourceLink};
use brickellstatus_runtime::json::{JsonNumber, JsonObject, JsonValue};
use brickellstatus_runtime::number::{Decimal, Real};

fn area(id: &str, label: &str, latitude: Real, longitude: Real) -> AlertArea {
    AlertArea {
        id: id.into(),
        label: label.into(),
        latitude,
        longitude,
        time_zone: "America/New_York".into(),
        country_code: Some("US".into()),
        admin_area: Some("Massachusetts".into()),
        source: AlertAreaSource::Search,
        enabled: true,
        weather_enabled: true,
        official_alerts_enabled: true,
        tropical_context_enabled: true,
    }
}

fn second_area() -> AlertArea {
    area(
        "area.boston",
        "Boston, Massachusetts",
        Real::Finite(Decimal::new(423601, -4)),
        Real::Finite(Decimal::new(-710589, -4)),
    )
}

fn miami() -> AlertArea {
    AlertArea {
        time_zone: "America/New_York".into(),
        admin_area: Some("Florida".into()),
        ..area(
            "area.miami",
            "Miami, Florida",
            Real::Finite(Decimal::new(257617, -4)),
            Real::Finite(Decimal::new(-801918, -4)),
        )
    }
}

fn fixture_item(location: Option<Location>) -> CollectorItem {
    CollectorItem {
        id: "hour:1".into(),
        kind: ItemKind::WeatherHourly,
        title: "Fixture forecast".into(),
        summary: None,
        observed_at_ms: None,
        starts_at_ms: None,
        ends_at_ms: None,
        location,
        source: SourceLink { name: "Fixture".into(), url: None },
        attributes: JsonObject::new(),
    }
}

fn point(latitude: Real, longitude: Real) -> Location {
    Location { latitude: Some(latitude), longitude: Some(longitude), name: None }
}

fn text(value: &JsonValue) -> &str {
    match value {
        JsonValue::String(s) => s.as_str(),
        other => panic!("not a string: {other:?}"),
    }
}

fn texts(value: &JsonValue) -> Vec<&str> {
    match value {
        JsonValue::Array(items) => items.iter().map(text).collect(),
        other => panic!("not an array: {other:?}"),
    }
}

#[test]
fn area_context_is_retained_on_normalized_collector_items() {
    let area = second_area();
    let context = AreaContext::single(&area);
    let items = context.tag_items(vec![fixture_item(Some(point(
        Real::Finite(Decimal::new(423601, -4)),
        Real::Finite(Decimal::new(-710589, -4)),
    )))]);
    let item = &items[0];
    assert_eq!(text(item.attributes.get("area_id").unwrap()), "area.boston");
    assert_eq!(text(item.attributes.get("area_label").unwrap()), "Boston, Massachusetts");
    assert_eq!(texts(item.attributes.get("area_ids").unwrap()), vec!["area.boston"]);
    assert!(item.id.starts_with("area:"));
    assert_eq!(
        item.location.as_ref().unwrap().name.as_deref(),
        Some("Boston, Massachusetts")
    );
}

#[test]
fn a_tagged_item_is_keyed_by_its_area_set() {
    let context = AreaContext::single(&second_area());
    assert_eq!(context.context_key, short_hash("area.boston"));
    let item = context.tag_item(fixture_item(None));
    assert_eq!(item.id, format!("area:{}:hour:1", short_hash("area.boston")));
    assert!(item.location.is_none());
    assert_eq!(text(item.attributes.get("area_time_zone").unwrap()), "America/New_York");
    assert_eq!(
        item.attributes.get("area_latitude"),
        Some(&JsonValue::Number(JsonNumber::Float(Decimal::new(423601, -4))))
    );
    match item.attributes.get("area_points").unwrap() {
        JsonValue::Array(points) => {
            assert_eq!(points.len(), 1);
            match &points[0] {
                JsonValue::Object(o) => {
                    assert_eq!(
                        o.get("lon"),
                        Some(&JsonValue::Number(JsonNumber::Float(Decimal::new(-710589, -4))))
                    );
                    assert_eq!(o.len(), 2);
                }
                other => panic!("not a point: {other:?}"),
            }
        }
        other => panic!("not an array: {other:?}"),
    }
}

#[test]
fn several_areas_share_one_key_and_leave_single_area_fields_alone() {
    let context = AreaContext::multiple(&[miami(), second_area()]);
    assert_eq!(context.context_key, short_hash("area.miami\0area.boston"));
    let mut item = fixture_item(Some(point(Real::NonFinite, Real::NonFinite)));
    item.attributes.insert("area_id".into(), JsonValue::String("kept".into()));
    let tagged = context.tag_item(item);
    assert_eq!(texts(tagged.attributes.get("area_ids").unwrap()), vec!["area.miami", "area.boston"]);
    assert_eq!(
        texts(tagged.attributes.get("area_labels").unwrap()),
        vec!["Miami, Florida", "Boston, Massachusetts"]
    );
    assert_eq!(text(tagged.attributes.get("area_id").unwrap()), "kept");
    assert!(tagged.attributes.get("area_label").is_none());
    assert_eq!(tagged.location.unwrap().name, None);
}

#[test]
fn a_named_place_keeps_its_name_and_a_missing_coordinate_is_null() {
    let boston = area("area.x", "Somewhere", Real::NonFinite, Real::Finite(Decimal::new(1, 0)));
    let context = AreaContext::single(&boston);
    let mut location = point(Real::NonFinite, Real::NonFinite);
    location.name = Some("Harbor".into());
    let tagged = context.tag_item(fixture_item(Some(location)));
    assert_eq!(tagged.location.unwrap().name.as_deref(), Some("Harbor"));
    assert_eq!(tagged.attributes.get("area_latitude"), Some(&JsonValue::Null));
}

#[test]
fn one_item_seen_for_two_place_sets_stays_two_items() {
    let alone = AreaContext::single(&second_area());
    let together = AreaContext::multiple(&[miami(), second_area()]);
    let a = alone.tag_item(fixture_item(None));
    let b = together.tag_item(fixture_item(None));
    assert_ne!(a.id, b.id);
    assert_eq!(alone.context_key.len(), 16);
    assert_eq!(together.context_key.len(), 16);
}
